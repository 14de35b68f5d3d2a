use vstd::prelude::*;

use crate::bytes::le_bytes;
use crate::bytes::lemma_le_bytes_injective;
use crate::bytes::lemma_le_bytes_len;
use crate::bytes::lemma_pow256_facts;
use crate::bytes::push_u64_le;
use crate::bytes::push_zeros;
use crate::bytes::read_u64_le;
use crate::bytes::copy_to_front;
use crate::bytes::zeros;
use crate::decimal::lemma_decimal_packed_injective;
use crate::decimal::push_decimal;
use crate::decimal::read_decimal;
use crate::decimal::Decimal;
use crate::error::StakingError;
use crate::key::lemma_pubkey_bytes_injective;
use crate::key::Pubkey;
use crate::state::reserved_is_zero;
use crate::state::PROGRAM_VERSION;
use crate::state::RESERVED_LEN;
use crate::state::UNINITIALIZED_VERSION;

verus! {

/// Number of bytes of a packed staking pool:
/// 1 + 3 * 32 + 4 * 8 + 2 * 16 + 8 + 1 + 128.
pub const STAKING_POOL_LEN: usize = 298;

/// Number of bytes of a packed staking pool before its reserved region.
pub const STAKING_POOL_FIELDS_LEN: usize = 170;

/// The state of a staking pool.
#[derive(Clone, Debug, Default, PartialEq)]
pub struct StakingPool {
    /// Version of the record.
    pub version: u8,
    /// The program-derived address allowed to move the pool's funds.
    pub owner_authority: Pubkey,
    pub admin_authority: Pubkey,
    pub reward_token_pool: Pubkey,
    /// Slot of the last reward update.
    pub last_update: u64,
    /// Slot at which the reward schedule ends.
    pub end_time: u64,
    pub earliest_reward_claim_time: u64,
    pub duration: u64,
    pub rate_per_slot: Decimal,
    pub cumulative_rate: Decimal,
    /// Total amount deposited over all stake accounts.
    pub pool_size: u64,
    pub bump_seed_staking_program: u8,
    pub reserve_fields1: [u8; 32],
    pub reserve_fields2: [u8; 32],
    pub reserve_fields3: [u8; 32],
    pub reserve_fields4: [u8; 32],
}

impl StakingPool {
    /// The packed fields, in layout order, before the reserved region.
    pub open spec fn fields_encoding(self) -> Seq<u8> {
        seq![self.version] + self.owner_authority.bytes() + self.admin_authority.bytes()
            + self.reward_token_pool.bytes() + le_bytes(self.last_update as nat, 8) + le_bytes(
            self.end_time as nat,
            8,
        ) + le_bytes(self.duration as nat, 8) + le_bytes(self.earliest_reward_claim_time as nat, 8)
            + self.rate_per_slot.packed() + self.cumulative_rate.packed() + le_bytes(
            self.pool_size as nat,
            8,
        ) + seq![self.bump_seed_staking_program]
    }

    /// The packed record: its fields, then a zero-filled reserved region.
    pub open spec fn encoding(self) -> Seq<u8> {
        self.fields_encoding() + zeros(RESERVED_LEN as nat)
    }

    /// The reserved blocks hold zeros.
    pub open spec fn reserved_zero(self) -> bool {
        reserved_is_zero(
            self.reserve_fields1,
            self.reserve_fields2,
            self.reserve_fields3,
            self.reserve_fields4,
        )
    }

    /// `r` is what decoding the buffer `s` must give.
    pub open spec fn unpack_outcome(s: Seq<u8>, r: Result<StakingPool, StakingError>) -> bool {
        if s.len() < STAKING_POOL_LEN {
            r == Err::<StakingPool, StakingError>(StakingError::BufferTooSmall)
        } else if s[0] > PROGRAM_VERSION {
            r == Err::<StakingPool, StakingError>(StakingError::UnsupportedVersion)
        } else {
            &&& r is Ok
            &&& r->Ok_0.fields_encoding() == s.subrange(0, STAKING_POOL_FIELDS_LEN as int)
            &&& r->Ok_0.reserved_zero()
        }
    }

    /// Whether the record was ever written.
    pub fn is_initialized(&self) -> (r: bool)
        ensures
            r == (self.version != UNINITIALIZED_VERSION),
    {
        self.version != UNINITIALIZED_VERSION
    }

    /// The packed record as a new buffer.
    fn encode(&self) -> (r: Vec<u8>)
        ensures
            r@ == self.encoding(),
    {
        let mut buf: Vec<u8> = Vec::new();
        buf.push(self.version);
        self.owner_authority.push_to(&mut buf);
        self.admin_authority.push_to(&mut buf);
        self.reward_token_pool.push_to(&mut buf);
        push_u64_le(&mut buf, self.last_update);
        push_u64_le(&mut buf, self.end_time);
        push_u64_le(&mut buf, self.duration);
        push_u64_le(&mut buf, self.earliest_reward_claim_time);
        push_decimal(&mut buf, self.rate_per_slot);
        push_decimal(&mut buf, self.cumulative_rate);
        push_u64_le(&mut buf, self.pool_size);
        buf.push(self.bump_seed_staking_program);
        push_zeros(&mut buf, RESERVED_LEN);
        assert(buf@ =~= self.encoding());
        buf
    }

    /// Writes the packed record over the first `STAKING_POOL_LEN` bytes of
    /// `dst`; the bytes after them are left as they were.
    pub fn pack_into_slice(&self, dst: &mut [u8])
        requires
            old(dst)@.len() >= STAKING_POOL_LEN,
        ensures
            final(dst)@ == self.encoding() + old(dst)@.subrange(
                STAKING_POOL_LEN as int,
                old(dst)@.len() as int,
            ),
    {
        let buf = self.encode();
        proof {
            lemma_staking_pool_encoding_len(*self);
        }
        copy_to_front(dst, &buf);
    }

    /// Decodes a staking pool from the front of `src`.
    pub fn unpack_from_slice(src: &[u8]) -> (r: Result<Self, StakingError>)
        ensures
            Self::unpack_outcome(src@, r),
    {
        if src.len() < STAKING_POOL_LEN {
            return Err(StakingError::BufferTooSmall);
        }
        let version = src[0];
        if version > PROGRAM_VERSION {
            return Err(StakingError::UnsupportedVersion);
        }
        let owner_authority = Pubkey::read_from(src, 1);
        let admin_authority = Pubkey::read_from(src, 33);
        let reward_token_pool = Pubkey::read_from(src, 65);
        let last_update = read_u64_le(src, 97);
        let end_time = read_u64_le(src, 105);
        let duration = read_u64_le(src, 113);
        let earliest_reward_claim_time = read_u64_le(src, 121);
        let rate_per_slot = match read_decimal(src, 129) {
            Ok(d) => d,
            Err(e) => {
                return Err(StakingError::Decimal(e));
            },
        };
        let cumulative_rate = match read_decimal(src, 145) {
            Ok(d) => d,
            Err(e) => {
                return Err(StakingError::Decimal(e));
            },
        };
        let pool_size = read_u64_le(src, 161);
        let bump_seed_staking_program = src[169];
        let reserve_field = [0u8; 32];
        let r = StakingPool {
            version,
            owner_authority,
            admin_authority,
            reward_token_pool,
            last_update,
            end_time,
            earliest_reward_claim_time,
            duration,
            rate_per_slot,
            cumulative_rate,
            pool_size,
            bump_seed_staking_program,
            reserve_fields1: reserve_field,
            reserve_fields2: reserve_field,
            reserve_fields3: reserve_field,
            reserve_fields4: reserve_field,
        };
        proof {
            let s = src@;
            assert(s.subrange(0, 170) =~= seq![s[0]] + s.subrange(1, 33) + s.subrange(33, 65)
                + s.subrange(65, 97) + s.subrange(97, 105) + s.subrange(105, 113) + s.subrange(
                113,
                121,
            ) + s.subrange(121, 129) + s.subrange(129, 145) + s.subrange(145, 161) + s.subrange(
                161,
                169,
            ) + seq![s[169]]);
            assert(r.fields_encoding() =~= s.subrange(0, 170));
        }
        Ok(r)
    }
}

proof fn lemma_staking_pool_piece_lens(p: StakingPool)
    ensures
        le_bytes(p.last_update as nat, 8).len() == 8,
        le_bytes(p.end_time as nat, 8).len() == 8,
        le_bytes(p.duration as nat, 8).len() == 8,
        le_bytes(p.earliest_reward_claim_time as nat, 8).len() == 8,
        le_bytes(p.pool_size as nat, 8).len() == 8,
        p.rate_per_slot.packed().len() == 16,
        p.cumulative_rate.packed().len() == 16,
{
    lemma_le_bytes_len(p.last_update as nat, 8);
    lemma_le_bytes_len(p.end_time as nat, 8);
    lemma_le_bytes_len(p.duration as nat, 8);
    lemma_le_bytes_len(p.earliest_reward_claim_time as nat, 8);
    lemma_le_bytes_len(p.pool_size as nat, 8);
    lemma_le_bytes_len(p.rate_per_slot.scaled_val as nat, 16);
    lemma_le_bytes_len(p.cumulative_rate.scaled_val as nat, 16);
}

/// A packed staking pool takes `STAKING_POOL_LEN` bytes, of which the fields
/// take `STAKING_POOL_FIELDS_LEN`.
pub proof fn lemma_staking_pool_encoding_len(p: StakingPool)
    ensures
        p.fields_encoding().len() == STAKING_POOL_FIELDS_LEN,
        p.encoding().len() == STAKING_POOL_LEN,
        p.encoding()[0] == p.version,
{
    lemma_staking_pool_piece_lens(p);
}

/// Two staking pools with zero reserved blocks and the same packed fields are
/// equal.
pub proof fn lemma_staking_pool_encoding_injective(a: StakingPool, b: StakingPool)
    requires
        a.reserved_zero(),
        b.reserved_zero(),
        a.fields_encoding() == b.fields_encoding(),
    ensures
        a == b,
{
    lemma_staking_pool_piece_lens(a);
    lemma_staking_pool_piece_lens(b);
    lemma_pow256_facts();
    let e = a.fields_encoding();
    assert(e[0] == a.version && e[0] == b.version);
    assert(e.subrange(1, 33) =~= a.owner_authority.bytes());
    assert(e.subrange(1, 33) =~= b.owner_authority.bytes());
    assert(e.subrange(33, 65) =~= a.admin_authority.bytes());
    assert(e.subrange(33, 65) =~= b.admin_authority.bytes());
    assert(e.subrange(65, 97) =~= a.reward_token_pool.bytes());
    assert(e.subrange(65, 97) =~= b.reward_token_pool.bytes());
    assert(e.subrange(97, 105) =~= le_bytes(a.last_update as nat, 8));
    assert(e.subrange(97, 105) =~= le_bytes(b.last_update as nat, 8));
    assert(e.subrange(105, 113) =~= le_bytes(a.end_time as nat, 8));
    assert(e.subrange(105, 113) =~= le_bytes(b.end_time as nat, 8));
    assert(e.subrange(113, 121) =~= le_bytes(a.duration as nat, 8));
    assert(e.subrange(113, 121) =~= le_bytes(b.duration as nat, 8));
    assert(e.subrange(121, 129) =~= le_bytes(a.earliest_reward_claim_time as nat, 8));
    assert(e.subrange(121, 129) =~= le_bytes(b.earliest_reward_claim_time as nat, 8));
    assert(e.subrange(129, 145) =~= a.rate_per_slot.packed());
    assert(e.subrange(129, 145) =~= b.rate_per_slot.packed());
    assert(e.subrange(145, 161) =~= a.cumulative_rate.packed());
    assert(e.subrange(145, 161) =~= b.cumulative_rate.packed());
    assert(e.subrange(161, 169) =~= le_bytes(a.pool_size as nat, 8));
    assert(e.subrange(161, 169) =~= le_bytes(b.pool_size as nat, 8));
    assert(e[169] == a.bump_seed_staking_program && e[169] == b.bump_seed_staking_program);
    lemma_pubkey_bytes_injective(a.owner_authority, b.owner_authority);
    lemma_pubkey_bytes_injective(a.admin_authority, b.admin_authority);
    lemma_pubkey_bytes_injective(a.reward_token_pool, b.reward_token_pool);
    lemma_le_bytes_injective(a.last_update as nat, b.last_update as nat, 8);
    lemma_le_bytes_injective(a.end_time as nat, b.end_time as nat, 8);
    lemma_le_bytes_injective(a.duration as nat, b.duration as nat, 8);
    lemma_le_bytes_injective(
        a.earliest_reward_claim_time as nat,
        b.earliest_reward_claim_time as nat,
        8,
    );
    lemma_le_bytes_injective(a.pool_size as nat, b.pool_size as nat, 8);
    lemma_decimal_packed_injective(a.rate_per_slot, b.rate_per_slot);
    lemma_decimal_packed_injective(a.cumulative_rate, b.cumulative_rate);
    assert(a.reserve_fields1 =~= b.reserve_fields1);
    assert(a.reserve_fields2 =~= b.reserve_fields2);
    assert(a.reserve_fields3 =~= b.reserve_fields3);
    assert(a.reserve_fields4 =~= b.reserve_fields4);
}

/// Decoding a buffer that starts with a packed staking pool, whose reserved
/// blocks are zero and whose version this program knows, gives that pool back.
pub proof fn lemma_staking_pool_round_trip(
    p: StakingPool,
    tail: Seq<u8>,
    r: Result<StakingPool, StakingError>,
)
    requires
        p.reserved_zero(),
        p.version <= PROGRAM_VERSION,
        StakingPool::unpack_outcome(p.encoding() + tail, r),
    ensures
        r == Ok::<StakingPool, StakingError>(p),
{
    lemma_staking_pool_encoding_len(p);
    let s = p.encoding() + tail;
    assert(s.subrange(0, STAKING_POOL_FIELDS_LEN as int) =~= p.fields_encoding());
    lemma_staking_pool_encoding_injective(r->Ok_0, p);
}

/// Decoding a proper prefix of a packed staking pool fails with
/// `BufferTooSmall`.
pub proof fn lemma_truncated_staking_pool_rejected(
    p: StakingPool,
    k: nat,
    r: Result<StakingPool, StakingError>,
)
    requires
        0 < k <= STAKING_POOL_LEN,
        StakingPool::unpack_outcome(p.encoding().subrange(0, STAKING_POOL_LEN - k), r),
    ensures
        r == Err::<StakingPool, StakingError>(StakingError::BufferTooSmall),
{
    lemma_staking_pool_encoding_len(p);
}

/// A staking pool buffer of full length whose version is one past
/// `PROGRAM_VERSION` is refused with `UnsupportedVersion`; one whose version is
/// `PROGRAM_VERSION` or `UNINITIALIZED_VERSION` is decoded.
pub proof fn lemma_staking_pool_version_gate(s: Seq<u8>, r: Result<StakingPool, StakingError>)
    requires
        s.len() >= STAKING_POOL_LEN,
        StakingPool::unpack_outcome(s, r),
    ensures
        s[0] == PROGRAM_VERSION + 1 ==> r == Err::<StakingPool, StakingError>(
            StakingError::UnsupportedVersion,
        ),
        s[0] == PROGRAM_VERSION || s[0] == UNINITIALIZED_VERSION ==> r is Ok,
{
}

} // verus!
