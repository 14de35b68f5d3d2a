use vstd::prelude::*;

use crate::address::clock_sysvar_bytes;
use crate::address::clock_sysvar_id;
use crate::address::find_program_address;
use crate::address::program_address;
use crate::address::rent_sysvar_bytes;
use crate::address::rent_sysvar_id;
use crate::address::token_program_bytes;
use crate::address::token_program_id;
use crate::bytes::le_bytes;
use crate::bytes::lemma_le_bytes_injective;
use crate::bytes::lemma_pow256_facts;
use crate::bytes::lemma_le_bytes_len;
use crate::bytes::push_u64_le;
use crate::bytes::read_u64_le;
use crate::error::StakingError;
use crate::key::lemma_pubkey_bytes_injective;
use crate::key::Pubkey;

verus! {

/// Number of field bytes that follow the tag of `InitStakingPool`.
pub const INIT_STAKING_POOL_FIELDS_LEN: usize = 89;

/// Instructions supported by the staking program.
#[derive(Clone, Debug, PartialEq)]
pub enum StakingInstruction {
    /// Sets up a staking pool that pays `supply` reward tokens over `duration` slots.
    InitStakingPool {
        supply: u64,
        duration: u64,
        earliest_reward_claim_time: u64,
        bump_seed_staking_program: u8,
        pool_owner_authority: Pubkey,
        admin_authority: Pubkey,
    },
    /// Creates a stake account in a pool.
    CreateStakeAccount,
    /// Deposits an amount into a stake account.
    Deposit(u64),
    /// Withdraws an amount from a stake account.
    Withdraw(u64),
    /// Claims all unclaimed reward of a stake account.
    ClaimReward,
}

impl StakingInstruction {
    /// The wire form: the tag byte, then each field in order, integers
    /// little-endian and addresses as their 32 bytes.
    pub open spec fn encoding(self) -> Seq<u8> {
        match self {
            StakingInstruction::InitStakingPool {
                supply,
                duration,
                earliest_reward_claim_time,
                bump_seed_staking_program,
                pool_owner_authority,
                admin_authority,
            } => seq![0u8] + le_bytes(supply as nat, 8) + le_bytes(duration as nat, 8) + le_bytes(
                earliest_reward_claim_time as nat,
                8,
            ) + seq![bump_seed_staking_program] + pool_owner_authority.bytes()
                + admin_authority.bytes(),
            StakingInstruction::CreateStakeAccount => seq![1u8],
            StakingInstruction::Deposit(amount) => seq![2u8] + le_bytes(amount as nat, 8),
            StakingInstruction::Withdraw(amount) => seq![3u8] + le_bytes(amount as nat, 8),
            StakingInstruction::ClaimReward => seq![4u8],
        }
    }

    /// `r` is what decoding the instruction data `s` must give: the instruction
    /// that `s` encodes, or `MalformedInstruction` exactly when `s` encodes none.
    pub open spec fn unpack_outcome(s: Seq<u8>, r: Result<StakingInstruction, StakingError>) -> bool {
        &&& r is Ok <==> is_instruction_encoding(s)
        &&& match r {
            Ok(ins) => ins.encoding() == s,
            Err(e) => e == StakingError::MalformedInstruction,
        }
    }

    /// Decodes instruction data.
    pub fn unpack(input: &[u8]) -> (r: Result<Self, StakingError>)
        ensures
            Self::unpack_outcome(input@, r),
    {
        if input.len() == 0 {
            return Err(StakingError::MalformedInstruction);
        }
        let (first, rest) = input.split_at(1);
        let tag = first[0];
        let ghost s = input@;
        proof {
            assert(s =~= seq![tag] + rest@);
        }
        let unpacked: Result<(StakingInstruction, &[u8]), StakingError> = if tag == 0 {
            match Self::unpack_init_staking_pool(rest) {
                Ok((ins, r)) => Ok((ins, r)),
                Err(e) => Err(e),
            }
        } else if tag == 1 {
            Ok((StakingInstruction::CreateStakeAccount, rest))
        } else if tag == 2 {
            match Self::unpack_u64(rest) {
                Ok((amount, r)) => Ok((StakingInstruction::Deposit(amount), r)),
                Err(e) => Err(e),
            }
        } else if tag == 3 {
            match Self::unpack_u64(rest) {
                Ok((amount, r)) => Ok((StakingInstruction::Withdraw(amount), r)),
                Err(e) => Err(e),
            }
        } else if tag == 4 {
            Ok((StakingInstruction::ClaimReward, rest))
        } else {
            Err(StakingError::MalformedInstruction)
        };
        match unpacked {
            Ok((ins, r)) => {
                if r.is_empty() {
                    proof {
                        lemma_encoding_shape(ins);
                        assert(ins.encoding() =~= s);
                    }
                    Ok(ins)
                } else {
                    proof {
                        lemma_encoding_shape(ins);
                        lemma_field_len(tag, s);
                    }
                    Err(StakingError::MalformedInstruction)
                }
            },
            Err(e) => {
                proof {
                    lemma_field_len(tag, s);
                }
                Err(e)
            },
        }
    }

    /// Decodes the fields of `InitStakingPool` at the front of `input`.
    fn unpack_init_staking_pool(input: &[u8]) -> (r: Result<(StakingInstruction, &[u8]), StakingError>)
        ensures
            match r {
                Ok((ins, rest)) => ins is InitStakingPool && input@.len() >= 89 && seq![0u8]
                    + input@ == ins.encoding() + rest@,
                Err(e) => input@.len() < 89 && e == StakingError::MalformedInstruction,
            },
    {
        let (supply, rest) = Self::unpack_u64(input)?;
        let (duration, rest) = Self::unpack_u64(rest)?;
        let (earliest_reward_claim_time, rest) = Self::unpack_u64(rest)?;
        let (bump_seed_staking_program, rest) = Self::unpack_u8(rest)?;
        let (pool_owner_authority, rest) = Self::unpack_pubkey(rest)?;
        let (admin_authority, rest) = Self::unpack_pubkey(rest)?;
        let ins = StakingInstruction::InitStakingPool {
            supply,
            duration,
            earliest_reward_claim_time,
            bump_seed_staking_program,
            pool_owner_authority,
            admin_authority,
        };
        proof {
            lemma_encoding_shape(ins);
            assert(seq![0u8] + input@ =~= ins.encoding() + rest@);
        }
        Ok((ins, rest))
    }

    /// Splits a little-endian `u64` off the front of `input`.
    fn unpack_u64(input: &[u8]) -> (r: Result<(u64, &[u8]), StakingError>)
        ensures
            match r {
                Ok((v, rest)) => input@.len() >= 8 && rest@.len() == input@.len() - 8 && input@
                    == le_bytes(v as nat, 8) + rest@,
                Err(e) => input@.len() < 8 && e == StakingError::MalformedInstruction,
            },
    {
        if input.len() < 8 {
            return Err(StakingError::MalformedInstruction);
        }
        let value = read_u64_le(input, 0);
        let (_, rest) = input.split_at(8);
        assert(input@ =~= input@.subrange(0, 8) + rest@);
        Ok((value, rest))
    }

    /// Splits an address off the front of `input`.
    fn unpack_pubkey(input: &[u8]) -> (r: Result<(Pubkey, &[u8]), StakingError>)
        ensures
            match r {
                Ok((k, rest)) => input@.len() >= 32 && rest@.len() == input@.len() - 32 && input@
                    == k.bytes() + rest@,
                Err(e) => input@.len() < 32 && e == StakingError::MalformedInstruction,
            },
    {
        if input.len() < 32 {
            return Err(StakingError::MalformedInstruction);
        }
        let key = Pubkey::read_from(input, 0);
        let (_, rest) = input.split_at(32);
        assert(input@ =~= input@.subrange(0, 32) + rest@);
        Ok((key, rest))
    }

    /// Splits one byte off the front of `input`.
    fn unpack_u8(input: &[u8]) -> (r: Result<(u8, &[u8]), StakingError>)
        ensures
            match r {
                Ok((v, rest)) => input@.len() >= 1 && rest@.len() == input@.len() - 1 && input@
                    == seq![v] + rest@,
                Err(e) => input@.len() < 1 && e == StakingError::MalformedInstruction,
            },
    {
        if input.is_empty() {
            return Err(StakingError::MalformedInstruction);
        }
        let (bytes, rest) = input.split_at(1);
        let value = bytes[0];
        assert(input@ =~= seq![value] + rest@);
        Ok((value, rest))
    }

    /// Encodes the instruction.
    pub fn pack(&self) -> (r: Vec<u8>)
        ensures
            r@ == self.encoding(),
    {
        let mut buf: Vec<u8> = Vec::new();
        match *self {
            StakingInstruction::InitStakingPool {
                supply,
                duration,
                earliest_reward_claim_time,
                bump_seed_staking_program,
                pool_owner_authority,
                admin_authority,
            } => {
                buf.push(0);
                push_u64_le(&mut buf, supply);
                push_u64_le(&mut buf, duration);
                push_u64_le(&mut buf, earliest_reward_claim_time);
                buf.push(bump_seed_staking_program);
                pool_owner_authority.push_to(&mut buf);
                admin_authority.push_to(&mut buf);
            },
            StakingInstruction::CreateStakeAccount => {
                buf.push(1);
            },
            StakingInstruction::Deposit(amount) => {
                buf.push(2);
                push_u64_le(&mut buf, amount);
            },
            StakingInstruction::Withdraw(amount) => {
                buf.push(3);
                push_u64_le(&mut buf, amount);
            },
            StakingInstruction::ClaimReward => {
                buf.push(4);
            },
        }
        assert(buf@ =~= self.encoding());
        buf
    }
}

/// The number of bytes that follow the tag of a well-formed instruction with
/// tag `tag`; none for an unknown tag.
pub open spec fn fields_len(tag: u8) -> Option<nat> {
    if tag == 0 {
        Some(INIT_STAKING_POOL_FIELDS_LEN as nat)
    } else if tag == 1 || tag == 4 {
        Some(0)
    } else if tag == 2 || tag == 3 {
        Some(8)
    } else {
        None
    }
}

/// `s` is the encoding of some instruction: a known tag followed by exactly
/// as many bytes as its fields take.
pub open spec fn is_instruction_encoding(s: Seq<u8>) -> bool {
    &&& s.len() > 0
    &&& fields_len(s[0]) is Some
    &&& s.len() == 1 + fields_len(s[0])->Some_0
}

/// An encoded instruction is its tag followed by its fields.
pub proof fn lemma_encoding_shape(ins: StakingInstruction)
    ensures
        is_instruction_encoding(ins.encoding()),
        ins is InitStakingPool <==> ins.encoding()[0] == 0,
        ins is CreateStakeAccount <==> ins.encoding()[0] == 1,
        ins is Deposit <==> ins.encoding()[0] == 2,
        ins is Withdraw <==> ins.encoding()[0] == 3,
        ins is ClaimReward <==> ins.encoding()[0] == 4,
{
    lemma_le_bytes_len(0, 8);
    match ins {
        StakingInstruction::InitStakingPool {
            supply,
            duration,
            earliest_reward_claim_time,
            pool_owner_authority,
            admin_authority,
            bump_seed_staking_program,
        } => {
            lemma_le_bytes_len(supply as nat, 8);
            lemma_le_bytes_len(duration as nat, 8);
            lemma_le_bytes_len(earliest_reward_claim_time as nat, 8);
            assert(pool_owner_authority.bytes().len() == 32);
            assert(admin_authority.bytes().len() == 32);
            let e = seq![0u8] + le_bytes(supply as nat, 8) + le_bytes(duration as nat, 8) + le_bytes(
                earliest_reward_claim_time as nat,
                8,
            ) + seq![bump_seed_staking_program] + pool_owner_authority.bytes()
                + admin_authority.bytes();
            assert(ins.encoding() == e);
            assert(e.len() == 90);
            assert(e[0] == 0);
        },
        StakingInstruction::Deposit(a) => {
            lemma_le_bytes_len(a as nat, 8);
        },
        StakingInstruction::Withdraw(a) => {
            lemma_le_bytes_len(a as nat, 8);
        },
        _ => {},
    }
}

proof fn lemma_field_len(tag: u8, s: Seq<u8>)
    requires
        s.len() > 0,
        s[0] == tag,
    ensures
        fields_len(tag) is Some ==> (is_instruction_encoding(s) <==> s.len() == 1 + fields_len(
            tag,
        )->Some_0),
        fields_len(tag) is None ==> !is_instruction_encoding(s),
{
}

/// Two instructions with the same encoding are the same instruction.
pub proof fn lemma_encoding_injective(x: StakingInstruction, y: StakingInstruction)
    requires
        x.encoding() == y.encoding(),
    ensures
        x == y,
{
    lemma_encoding_shape(x);
    lemma_encoding_shape(y);
    lemma_pow256_facts();
    let e = x.encoding();
    match x {
        StakingInstruction::InitStakingPool {
            supply: s1,
            duration: d1,
            earliest_reward_claim_time: t1,
            bump_seed_staking_program: b1,
            pool_owner_authority: p1,
            admin_authority: a1,
        } => {
            match y {
                StakingInstruction::InitStakingPool {
                    supply: s2,
                    duration: d2,
                    earliest_reward_claim_time: t2,
                    bump_seed_staking_program: b2,
                    pool_owner_authority: p2,
                    admin_authority: a2,
                } => {
                    lemma_le_bytes_len(s1 as nat, 8);
                    lemma_le_bytes_len(d1 as nat, 8);
                    lemma_le_bytes_len(t1 as nat, 8);
                    lemma_le_bytes_len(s2 as nat, 8);
                    lemma_le_bytes_len(d2 as nat, 8);
                    lemma_le_bytes_len(t2 as nat, 8);
                    assert(e.subrange(1, 9) =~= le_bytes(s1 as nat, 8));
                    assert(e.subrange(1, 9) =~= le_bytes(s2 as nat, 8));
                    assert(e.subrange(9, 17) =~= le_bytes(d1 as nat, 8));
                    assert(e.subrange(9, 17) =~= le_bytes(d2 as nat, 8));
                    assert(e.subrange(17, 25) =~= le_bytes(t1 as nat, 8));
                    assert(e.subrange(17, 25) =~= le_bytes(t2 as nat, 8));
                    assert(e[25] == b1);
                    assert(e[25] == b2);
                    assert(e.subrange(26, 58) =~= p1.bytes());
                    assert(e.subrange(26, 58) =~= p2.bytes());
                    assert(e.subrange(58, 90) =~= a1.bytes());
                    assert(e.subrange(58, 90) =~= a2.bytes());
                    lemma_le_bytes_injective(s1 as nat, s2 as nat, 8);
                    lemma_le_bytes_injective(d1 as nat, d2 as nat, 8);
                    lemma_le_bytes_injective(t1 as nat, t2 as nat, 8);
                    lemma_pubkey_bytes_injective(p1, p2);
                    lemma_pubkey_bytes_injective(a1, a2);
                },
                _ => {},
            }
        },
        StakingInstruction::Deposit(a1) => {
            if let StakingInstruction::Deposit(a2) = y {
                assert(e.subrange(1, 9) =~= le_bytes(a1 as nat, 8));
                assert(e.subrange(1, 9) =~= le_bytes(a2 as nat, 8));
                lemma_le_bytes_injective(a1 as nat, a2 as nat, 8);
            }
        },
        StakingInstruction::Withdraw(a1) => {
            if let StakingInstruction::Withdraw(a2) = y {
                assert(e.subrange(1, 9) =~= le_bytes(a1 as nat, 8));
                assert(e.subrange(1, 9) =~= le_bytes(a2 as nat, 8));
                lemma_le_bytes_injective(a1 as nat, a2 as nat, 8);
            }
        },
        _ => {},
    }
}

/// Decoding the encoding of any instruction gives that instruction back.
pub proof fn lemma_instruction_round_trip(
    x: StakingInstruction,
    r: Result<StakingInstruction, StakingError>,
)
    requires
        StakingInstruction::unpack_outcome(x.encoding(), r),
    ensures
        r == Ok::<StakingInstruction, StakingError>(x),
{
    lemma_encoding_shape(x);
    lemma_encoding_injective(r->Ok_0, x);
}

/// Decoding a proper prefix of an encoded instruction fails with
/// `MalformedInstruction`.
pub proof fn lemma_truncated_instruction_rejected(
    x: StakingInstruction,
    k: nat,
    r: Result<StakingInstruction, StakingError>,
)
    requires
        0 < k <= x.encoding().len(),
        StakingInstruction::unpack_outcome(x.encoding().subrange(0, x.encoding().len() - k), r),
    ensures
        r == Err::<StakingInstruction, StakingError>(StakingError::MalformedInstruction),
{
    lemma_encoding_shape(x);
}

/// Decoding an encoded instruction followed by one more byte fails with
/// `MalformedInstruction`.
pub proof fn lemma_trailing_byte_rejected(
    x: StakingInstruction,
    b: u8,
    r: Result<StakingInstruction, StakingError>,
)
    requires
        StakingInstruction::unpack_outcome(x.encoding().push(b), r),
    ensures
        r == Err::<StakingInstruction, StakingError>(StakingError::MalformedInstruction),
{
    lemma_encoding_shape(x);
}

/// Instruction data whose tag is 5 or more fails with `MalformedInstruction`.
pub proof fn lemma_unknown_tag_rejected(s: Seq<u8>, r: Result<StakingInstruction, StakingError>)
    requires
        s.len() > 0,
        s[0] >= 5,
        StakingInstruction::unpack_outcome(s, r),
    ensures
        r == Err::<StakingInstruction, StakingError>(StakingError::MalformedInstruction),
{
}

/// An account that an instruction reads or writes.
#[derive(Clone, Copy, Debug, PartialEq, Eq)]
pub struct AccountMeta {
    pub pubkey: Pubkey,
    /// The transaction must carry this account's signature.
    pub is_signer: bool,
    /// The instruction may change the account.
    pub is_writable: bool,
}

impl AccountMeta {
    /// A writable account.
    pub fn new(pubkey: Pubkey, is_signer: bool) -> (r: AccountMeta)
        ensures
            r == (AccountMeta { pubkey, is_signer, is_writable: true }),
    {
        AccountMeta { pubkey, is_signer, is_writable: true }
    }

    /// A read-only account.
    pub fn new_readonly(pubkey: Pubkey, is_signer: bool) -> (r: AccountMeta)
        ensures
            r == (AccountMeta { pubkey, is_signer, is_writable: false }),
    {
        AccountMeta { pubkey, is_signer, is_writable: false }
    }
}

/// `m` names the account with address bytes `key`, with the given flags.
pub open spec fn meta_is(m: AccountMeta, key: Seq<u8>, is_signer: bool, is_writable: bool) -> bool {
    &&& m.pubkey.bytes() == key
    &&& m.is_signer == is_signer
    &&& m.is_writable == is_writable
}

/// An instruction for a program: the accounts it uses and its data.
#[derive(Clone, Debug, PartialEq)]
pub struct Instruction {
    pub program_id: Pubkey,
    pub accounts: Vec<AccountMeta>,
    pub data: Vec<u8>,
}

/// Builds a `CreateStakeAccount` instruction.
pub fn create_stake_account(
    program_id: Pubkey,
    stake_account: Pubkey,
    staking_pool: Pubkey,
    stake_account_owner: Pubkey,
) -> (r: Instruction)
    ensures
        r.program_id == program_id,
        r.accounts@.len() == 4,
        meta_is(r.accounts@[0], stake_account.bytes(), false, true),
        meta_is(r.accounts@[1], staking_pool.bytes(), false, false),
        meta_is(r.accounts@[2], stake_account_owner.bytes(), false, false),
        meta_is(r.accounts@[3], rent_sysvar_bytes(), false, false),
        r.data@ == StakingInstruction::CreateStakeAccount.encoding(),
{
    let mut accounts: Vec<AccountMeta> = Vec::new();
    accounts.push(AccountMeta::new(stake_account, false));
    accounts.push(AccountMeta::new_readonly(staking_pool, false));
    accounts.push(AccountMeta::new_readonly(stake_account_owner, false));
    accounts.push(AccountMeta::new_readonly(rent_sysvar_id(), false));
    Instruction { program_id, accounts, data: StakingInstruction::CreateStakeAccount.pack() }
}

/// Builds a `ClaimReward` instruction; none where no address can be derived
/// from the staking pool for the program.
pub fn claim_reward(
    program_id: Pubkey,
    stake_account_owner: Pubkey,
    stake_account: Pubkey,
    staking_pool: Pubkey,
    reward_token_pool: Pubkey,
    reward_destination: Pubkey,
    sub_reward_pool: Pubkey,
    sub_reward_dest: Pubkey,
) -> (r: Option<Instruction>)
    ensures
        r is None <==> program_address(staking_pool.bytes(), program_id.bytes()) is None,
        r is Some ==> {
            let ins = r->Some_0;
            let derived = program_address(staking_pool.bytes(), program_id.bytes())->Some_0.0;
            &&& ins.program_id == program_id
            &&& ins.accounts@.len() == 10
            &&& meta_is(ins.accounts@[0], stake_account_owner.bytes(), true, false)
            &&& meta_is(ins.accounts@[1], stake_account.bytes(), false, true)
            &&& meta_is(ins.accounts@[2], staking_pool.bytes(), false, true)
            &&& meta_is(ins.accounts@[3], reward_token_pool.bytes(), false, true)
            &&& meta_is(ins.accounts@[4], reward_destination.bytes(), false, true)
            &&& meta_is(ins.accounts@[5], derived, false, false)
            &&& meta_is(ins.accounts@[6], clock_sysvar_bytes(), false, false)
            &&& meta_is(ins.accounts@[7], token_program_bytes(), false, false)
            &&& meta_is(ins.accounts@[8], sub_reward_pool.bytes(), false, true)
            &&& meta_is(ins.accounts@[9], sub_reward_dest.bytes(), false, true)
            &&& ins.data@ == StakingInstruction::ClaimReward.encoding()
        },
{
    let (staking_program_derived, _bump_seed) = match find_program_address(
        &staking_pool,
        &program_id,
    ) {
        Some(found) => found,
        None => {
            return None;
        },
    };
    let mut accounts: Vec<AccountMeta> = Vec::new();
    accounts.push(AccountMeta::new_readonly(stake_account_owner, true));
    accounts.push(AccountMeta::new(stake_account, false));
    accounts.push(AccountMeta::new(staking_pool, false));
    accounts.push(AccountMeta::new(reward_token_pool, false));
    accounts.push(AccountMeta::new(reward_destination, false));
    accounts.push(AccountMeta::new_readonly(staking_program_derived, false));
    accounts.push(AccountMeta::new_readonly(clock_sysvar_id(), false));
    accounts.push(AccountMeta::new_readonly(token_program_id(), false));
    accounts.push(AccountMeta::new(sub_reward_pool, false));
    accounts.push(AccountMeta::new(sub_reward_dest, false));
    Some(Instruction { program_id, accounts, data: StakingInstruction::ClaimReward.pack() })
}

/// Builds an `InitStakingPool` instruction, with the bump seed of the address
/// derived from the staking pool; none where no address can be derived.
pub fn init_staking_pool(
    program_id: Pubkey,
    supply: u64,
    duration: u64,
    earliest_reward_claim_time: u64,
    transfer_reward_token_authority: Pubkey,
    reward_token_supply: Pubkey,
    reward_token_pool: Pubkey,
    staking_pool: Pubkey,
    reward_token_mint: Pubkey,
    staking_pool_owner_derived: Pubkey,
    admin_authority: Pubkey,
) -> (r: Option<Instruction>)
    ensures
        r is None <==> program_address(staking_pool.bytes(), program_id.bytes()) is None,
        r is Some ==> {
            let ins = r->Some_0;
            let (derived, bump) = program_address(staking_pool.bytes(), program_id.bytes())->Some_0;
            &&& ins.program_id == program_id
            &&& ins.accounts@.len() == 8
            &&& meta_is(ins.accounts@[0], transfer_reward_token_authority.bytes(), true, false)
            &&& meta_is(ins.accounts@[1], reward_token_supply.bytes(), false, true)
            &&& meta_is(ins.accounts@[2], reward_token_pool.bytes(), false, true)
            &&& meta_is(ins.accounts@[3], staking_pool.bytes(), false, true)
            &&& meta_is(ins.accounts@[4], reward_token_mint.bytes(), false, false)
            &&& meta_is(ins.accounts@[5], derived, false, false)
            &&& meta_is(ins.accounts@[6], rent_sysvar_bytes(), false, false)
            &&& meta_is(ins.accounts@[7], token_program_bytes(), false, false)
            &&& ins.data@ == (StakingInstruction::InitStakingPool {
                supply,
                duration,
                earliest_reward_claim_time,
                bump_seed_staking_program: bump,
                pool_owner_authority: staking_pool_owner_derived,
                admin_authority,
            }).encoding()
        },
{
    let (staking_program_derived, bump_seed) = match find_program_address(
        &staking_pool,
        &program_id,
    ) {
        Some(found) => found,
        None => {
            return None;
        },
    };
    let mut accounts: Vec<AccountMeta> = Vec::new();
    accounts.push(AccountMeta::new_readonly(transfer_reward_token_authority, true));
    accounts.push(AccountMeta::new(reward_token_supply, false));
    accounts.push(AccountMeta::new(reward_token_pool, false));
    accounts.push(AccountMeta::new(staking_pool, false));
    accounts.push(AccountMeta::new_readonly(reward_token_mint, false));
    accounts.push(AccountMeta::new_readonly(staking_program_derived, false));
    accounts.push(AccountMeta::new_readonly(rent_sysvar_id(), false));
    accounts.push(AccountMeta::new_readonly(token_program_id(), false));
    let data = StakingInstruction::InitStakingPool {
        supply,
        duration,
        earliest_reward_claim_time,
        bump_seed_staking_program: bump_seed,
        pool_owner_authority: staking_pool_owner_derived,
        admin_authority,
    }.pack();
    Some(Instruction { program_id, accounts, data })
}

/// Builds a `Deposit` instruction for `amount`.
pub fn deposit(
    program_id: Pubkey,
    amount: u64,
    authority: Pubkey,
    stake_account: Pubkey,
    staking_pool: Pubkey,
) -> (r: Instruction)
    ensures
        r.program_id == program_id,
        r.accounts@.len() == 4,
        meta_is(r.accounts@[0], authority.bytes(), true, false),
        meta_is(r.accounts@[1], stake_account.bytes(), false, true),
        meta_is(r.accounts@[2], staking_pool.bytes(), false, true),
        meta_is(r.accounts@[3], clock_sysvar_bytes(), false, false),
        r.data@ == StakingInstruction::Deposit(amount).encoding(),
{
    let mut accounts: Vec<AccountMeta> = Vec::new();
    accounts.push(AccountMeta::new_readonly(authority, true));
    accounts.push(AccountMeta::new(stake_account, false));
    accounts.push(AccountMeta::new(staking_pool, false));
    accounts.push(AccountMeta::new_readonly(clock_sysvar_id(), false));
    Instruction { program_id, accounts, data: StakingInstruction::Deposit(amount).pack() }
}

/// Builds a `Withdraw` instruction for `amount`.
pub fn withdraw(
    program_id: Pubkey,
    amount: u64,
    authority: Pubkey,
    stake_account: Pubkey,
    staking_pool: Pubkey,
) -> (r: Instruction)
    ensures
        r.program_id == program_id,
        r.accounts@.len() == 4,
        meta_is(r.accounts@[0], authority.bytes(), true, false),
        meta_is(r.accounts@[1], stake_account.bytes(), false, true),
        meta_is(r.accounts@[2], staking_pool.bytes(), false, true),
        meta_is(r.accounts@[3], clock_sysvar_bytes(), false, false),
        r.data@ == StakingInstruction::Withdraw(amount).encoding(),
{
    let mut accounts: Vec<AccountMeta> = Vec::new();
    accounts.push(AccountMeta::new_readonly(authority, true));
    accounts.push(AccountMeta::new(stake_account, false));
    accounts.push(AccountMeta::new(staking_pool, false));
    accounts.push(AccountMeta::new_readonly(clock_sysvar_id(), false));
    Instruction { program_id, accounts, data: StakingInstruction::Withdraw(amount).pack() }
}

} // verus!
