use solana_program::program_error::ProgramError;
use solana_program::program_pack::Pack;
use vstd::prelude::*;

use crate::bytes::le_bytes;
use crate::bytes::le_nat;
use crate::bytes::lemma_le_bytes_injective;
use crate::bytes::lemma_le_bytes_of_nat;
use crate::bytes::lemma_pow256_facts;

verus! {

#[verifier::external_type_specification]
#[verifier::external_body]
pub struct ExProgramError(ProgramError);

/// Number of bytes of a packed decimal.
pub const DECIMAL_LEN: usize = 16;

/// A fixed-point decimal with 18 digits after the point, held as its scaled
/// value (the decimal times 10^18).
#[derive(Clone, Copy, Debug, PartialEq, Eq, Default)]
pub struct Decimal {
    pub scaled_val: u128,
}

impl Decimal {
    /// The packed form of this decimal.
    pub open spec fn packed(self) -> Seq<u8> {
        le_bytes(self.scaled_val as nat, 16)
    }
}

/// Relies on `Pack for solana_maths::Decimal`: `pack_into_slice` writes the
/// scaled value as 16 little-endian bytes (it cannot fail on a value built
/// with `from_scaled_val`).
#[verifier::external_body]
pub(crate) fn pack_decimal(d: Decimal) -> (r: [u8; 16])
    ensures
        r@ == d.packed(),
{
    let mut out = [0u8; 16];
    solana_maths::Decimal::from_scaled_val(d.scaled_val).pack_into_slice(&mut out);
    out
}

/// Relies on `Pack for solana_maths::Decimal`: `unpack_from_slice` reads the
/// first 16 bytes as a little-endian scaled value and does not fail; reading the
/// scaled value back with `to_scaled_val` gives it unchanged.
#[verifier::external_body]
pub(crate) fn unpack_decimal(s: &[u8]) -> (r: Result<Decimal, ProgramError>)
    requires
        s@.len() >= 16,
    ensures
        r is Ok,
        r is Ok ==> r->Ok_0.scaled_val as nat == le_nat(s@.subrange(0, 16)),
{
    solana_maths::Decimal::unpack_from_slice(s)
        .and_then(|d| d.to_scaled_val())
        .map(|v| Decimal { scaled_val: v })
}

/// Appends the packed form of `d` to `out`.
pub(crate) fn push_decimal(out: &mut Vec<u8>, d: Decimal)
    ensures
        final(out)@ == old(out)@ + d.packed(),
{
    let ghost start = old(out)@;
    let b = pack_decimal(d);
    let mut i: usize = 0;
    while i < 16
        invariant
            i <= 16,
            b@ == d.packed(),
            out@ =~= start + b@.subrange(0, i as int),
        decreases 16 - i,
    {
        out.push(b[i]);
        i = i + 1;
        assert(out@ =~= start + b@.subrange(0, i as int));
    }
    assert(b@.subrange(0, 16) =~= b@);
}

/// Reads the decimal packed at `s[off..off + 16]`.
pub(crate) fn read_decimal(s: &[u8], off: usize) -> (r: Result<Decimal, ProgramError>)
    requires
        off + 16 <= s@.len(),
    ensures
        r is Ok,
        r is Ok ==> r->Ok_0.packed() == s@.subrange(off as int, off + 16),
{
    let (_, tail) = s.split_at(off);
    let r = unpack_decimal(tail);
    proof {
        let sub = s@.subrange(off as int, off + 16);
        assert(tail@.subrange(0, 16) =~= sub);
        lemma_le_bytes_of_nat(sub);
    }
    r
}

/// Two decimals with the same packed form are equal.
pub proof fn lemma_decimal_packed_injective(a: Decimal, b: Decimal)
    requires
        a.packed() == b.packed(),
    ensures
        a == b,
{
    lemma_pow256_facts();
    lemma_le_bytes_injective(a.scaled_val as nat, b.scaled_val as nat, 16);
}

} // verus!
