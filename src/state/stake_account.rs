use vstd::prelude::*;

use crate::bytes::le_bytes;
use crate::bytes::lemma_le_bytes_injective;
use crate::bytes::lemma_le_bytes_len;
use crate::bytes::lemma_pow256_facts;
use crate::bytes::push_u64_le;
use crate::bytes::push_zeros;
use crate::bytes::read_u64_le;
use crate::bytes::copy_to_front;
use crate::bytes::zeros;
use crate::decimal::lemma_decimal_packed_injective;
use crate::decimal::push_decimal;
use crate::decimal::read_decimal;
use crate::decimal::Decimal;
use crate::error::StakingError;
use crate::key::lemma_pubkey_bytes_injective;
use crate::key::Pubkey;
use crate::state::reserved_is_zero;
use crate::state::PROGRAM_VERSION;
use crate::state::RESERVED_LEN;
use crate::state::UNINITIALIZED_VERSION;

verus! {

/// Number of bytes of a packed stake account:
/// 1 + 16 + 32 + 32 + 8 + 16 + 128.
pub const STAKE_ACCOUNT_LEN: usize = 233;

/// Number of bytes of a packed stake account before its reserved region.
pub const STAKE_ACCOUNT_FIELDS_LEN: usize = 105;

/// The stake of one participant in a pool.
#[derive(Clone, Debug, Default, PartialEq)]
pub struct StakeAccount {
    /// Version of the record.
    pub version: u8,
    /// The pool's cumulative rate when the stake last changed.
    pub start_rate: Decimal,
    pub owner: Pubkey,
    pub pool_pubkey: Pubkey,
    pub deposited_amount: u64,
    pub unclaimed_reward_wads: Decimal,
    pub reserve_fields1: [u8; 32],
    pub reserve_fields2: [u8; 32],
    pub reserve_fields3: [u8; 32],
    pub reserve_fields4: [u8; 32],
}

impl StakeAccount {
    /// The packed fields, in layout order, before the reserved region.
    pub open spec fn fields_encoding(self) -> Seq<u8> {
        seq![self.version] + self.start_rate.packed() + self.owner.bytes()
            + self.pool_pubkey.bytes() + le_bytes(self.deposited_amount as nat, 8)
            + self.unclaimed_reward_wads.packed()
    }

    /// The packed record: its fields, then a zero-filled reserved region.
    pub open spec fn encoding(self) -> Seq<u8> {
        self.fields_encoding() + zeros(RESERVED_LEN as nat)
    }

    /// The reserved blocks hold zeros.
    pub open spec fn reserved_zero(self) -> bool {
        reserved_is_zero(
            self.reserve_fields1,
            self.reserve_fields2,
            self.reserve_fields3,
            self.reserve_fields4,
        )
    }

    /// `r` is what decoding the buffer `s` must give.
    pub open spec fn unpack_outcome(s: Seq<u8>, r: Result<StakeAccount, StakingError>) -> bool {
        if s.len() < STAKE_ACCOUNT_LEN {
            r == Err::<StakeAccount, StakingError>(StakingError::BufferTooSmall)
        } else if s[0] > PROGRAM_VERSION {
            r == Err::<StakeAccount, StakingError>(StakingError::UnsupportedVersion)
        } else {
            &&& r is Ok
            &&& r->Ok_0.fields_encoding() == s.subrange(0, STAKE_ACCOUNT_FIELDS_LEN as int)
            &&& r->Ok_0.reserved_zero()
        }
    }

    /// Whether the record was ever written.
    pub fn is_initialized(&self) -> (r: bool)
        ensures
            r == (self.version != UNINITIALIZED_VERSION),
    {
        self.version != UNINITIALIZED_VERSION
    }

    /// The packed record as a new buffer.
    fn encode(&self) -> (r: Vec<u8>)
        ensures
            r@ == self.encoding(),
    {
        let mut buf: Vec<u8> = Vec::new();
        buf.push(self.version);
        push_decimal(&mut buf, self.start_rate);
        self.owner.push_to(&mut buf);
        self.pool_pubkey.push_to(&mut buf);
        push_u64_le(&mut buf, self.deposited_amount);
        push_decimal(&mut buf, self.unclaimed_reward_wads);
        push_zeros(&mut buf, RESERVED_LEN);
        assert(buf@ =~= self.encoding());
        buf
    }

    /// Writes the packed record over the first `STAKE_ACCOUNT_LEN` bytes of
    /// `dst`; the bytes after them are left as they were.
    pub fn pack_into_slice(&self, dst: &mut [u8])
        requires
            old(dst)@.len() >= STAKE_ACCOUNT_LEN,
        ensures
            final(dst)@ == self.encoding() + old(dst)@.subrange(
                STAKE_ACCOUNT_LEN as int,
                old(dst)@.len() as int,
            ),
    {
        let buf = self.encode();
        proof {
            lemma_stake_account_encoding_len(*self);
        }
        copy_to_front(dst, &buf);
    }

    /// Decodes a stake account from the front of `src`.
    pub fn unpack_from_slice(src: &[u8]) -> (r: Result<Self, StakingError>)
        ensures
            Self::unpack_outcome(src@, r),
    {
        if src.len() < STAKE_ACCOUNT_LEN {
            return Err(StakingError::BufferTooSmall);
        }
        let version = src[0];
        if version > PROGRAM_VERSION {
            return Err(StakingError::UnsupportedVersion);
        }
        let start_rate = match read_decimal(src, 1) {
            Ok(d) => d,
            Err(e) => {
                return Err(StakingError::Decimal(e));
            },
        };
        let owner = Pubkey::read_from(src, 17);
        let pool_pubkey = Pubkey::read_from(src, 49);
        let deposited_amount = read_u64_le(src, 81);
        let unclaimed_reward_wads = match read_decimal(src, 89) {
            Ok(d) => d,
            Err(e) => {
                return Err(StakingError::Decimal(e));
            },
        };
        let reserve_field = [0u8; 32];
        let r = StakeAccount {
            version,
            start_rate,
            owner,
            pool_pubkey,
            deposited_amount,
            unclaimed_reward_wads,
            reserve_fields1: reserve_field,
            reserve_fields2: reserve_field,
            reserve_fields3: reserve_field,
            reserve_fields4: reserve_field,
        };
        proof {
            let s = src@;
            assert(s.subrange(0, 105) =~= seq![s[0]] + s.subrange(1, 17) + s.subrange(17, 49)
                + s.subrange(49, 81) + s.subrange(81, 89) + s.subrange(89, 105));
            assert(r.fields_encoding() =~= s.subrange(0, 105));
        }
        Ok(r)
    }
}

/// A packed stake account takes `STAKE_ACCOUNT_LEN` bytes, of which the
/// fields take `STAKE_ACCOUNT_FIELDS_LEN`.
pub proof fn lemma_stake_account_encoding_len(a: StakeAccount)
    ensures
        a.fields_encoding().len() == STAKE_ACCOUNT_FIELDS_LEN,
        a.encoding().len() == STAKE_ACCOUNT_LEN,
        a.encoding()[0] == a.version,
{
    lemma_le_bytes_len(a.start_rate.scaled_val as nat, 16);
    lemma_le_bytes_len(a.unclaimed_reward_wads.scaled_val as nat, 16);
    lemma_le_bytes_len(a.deposited_amount as nat, 8);
}

/// Two stake accounts with zero reserved blocks and the same packed fields
/// are equal.
pub proof fn lemma_stake_account_encoding_injective(a: StakeAccount, b: StakeAccount)
    requires
        a.reserved_zero(),
        b.reserved_zero(),
        a.fields_encoding() == b.fields_encoding(),
    ensures
        a == b,
{
    lemma_stake_account_encoding_len(a);
    lemma_stake_account_encoding_len(b);
    lemma_pow256_facts();
    lemma_le_bytes_len(a.start_rate.scaled_val as nat, 16);
    lemma_le_bytes_len(b.start_rate.scaled_val as nat, 16);
    lemma_le_bytes_len(a.unclaimed_reward_wads.scaled_val as nat, 16);
    lemma_le_bytes_len(b.unclaimed_reward_wads.scaled_val as nat, 16);
    lemma_le_bytes_len(a.deposited_amount as nat, 8);
    lemma_le_bytes_len(b.deposited_amount as nat, 8);
    let e = a.fields_encoding();
    assert(e[0] == a.version && e[0] == b.version);
    assert(e.subrange(1, 17) =~= a.start_rate.packed());
    assert(e.subrange(1, 17) =~= b.start_rate.packed());
    assert(e.subrange(17, 49) =~= a.owner.bytes());
    assert(e.subrange(17, 49) =~= b.owner.bytes());
    assert(e.subrange(49, 81) =~= a.pool_pubkey.bytes());
    assert(e.subrange(49, 81) =~= b.pool_pubkey.bytes());
    assert(e.subrange(81, 89) =~= le_bytes(a.deposited_amount as nat, 8));
    assert(e.subrange(81, 89) =~= le_bytes(b.deposited_amount as nat, 8));
    assert(e.subrange(89, 105) =~= a.unclaimed_reward_wads.packed());
    assert(e.subrange(89, 105) =~= b.unclaimed_reward_wads.packed());
    lemma_decimal_packed_injective(a.start_rate, b.start_rate);
    lemma_decimal_packed_injective(a.unclaimed_reward_wads, b.unclaimed_reward_wads);
    lemma_pubkey_bytes_injective(a.owner, b.owner);
    lemma_pubkey_bytes_injective(a.pool_pubkey, b.pool_pubkey);
    lemma_le_bytes_injective(a.deposited_amount as nat, b.deposited_amount as nat, 8);
    assert(a.reserve_fields1 =~= b.reserve_fields1);
    assert(a.reserve_fields2 =~= b.reserve_fields2);
    assert(a.reserve_fields3 =~= b.reserve_fields3);
    assert(a.reserve_fields4 =~= b.reserve_fields4);
}

/// Decoding a buffer that starts with a packed stake account, whose reserved
/// blocks are zero and whose version this program knows, gives that account
/// back.
pub proof fn lemma_stake_account_round_trip(
    a: StakeAccount,
    tail: Seq<u8>,
    r: Result<StakeAccount, StakingError>,
)
    requires
        a.reserved_zero(),
        a.version <= PROGRAM_VERSION,
        StakeAccount::unpack_outcome(a.encoding() + tail, r),
    ensures
        r == Ok::<StakeAccount, StakingError>(a),
{
    lemma_stake_account_encoding_len(a);
    let s = a.encoding() + tail;
    assert(s.subrange(0, STAKE_ACCOUNT_FIELDS_LEN as int) =~= a.fields_encoding());
    lemma_stake_account_encoding_injective(r->Ok_0, a);
}

/// Decoding a proper prefix of a packed stake account fails with
/// `BufferTooSmall`.
pub proof fn lemma_truncated_stake_account_rejected(
    a: StakeAccount,
    k: nat,
    r: Result<StakeAccount, StakingError>,
)
    requires
        0 < k <= STAKE_ACCOUNT_LEN,
        StakeAccount::unpack_outcome(a.encoding().subrange(0, STAKE_ACCOUNT_LEN - k), r),
    ensures
        r == Err::<StakeAccount, StakingError>(StakingError::BufferTooSmall),
{
    lemma_stake_account_encoding_len(a);
}

/// A stake account buffer of full length whose version is one past
/// `PROGRAM_VERSION` is refused with `UnsupportedVersion`; one whose version is
/// `PROGRAM_VERSION` or `UNINITIALIZED_VERSION` is decoded.
pub proof fn lemma_stake_account_version_gate(s: Seq<u8>, r: Result<StakeAccount, StakingError>)
    requires
        s.len() >= STAKE_ACCOUNT_LEN,
        StakeAccount::unpack_outcome(s, r),
    ensures
        s[0] == PROGRAM_VERSION + 1 ==> r == Err::<StakeAccount, StakingError>(
            StakingError::UnsupportedVersion,
        ),
        s[0] == PROGRAM_VERSION || s[0] == UNINITIALIZED_VERSION ==> r is Ok,
{
}

} // verus!
