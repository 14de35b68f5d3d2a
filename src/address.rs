use vstd::prelude::*;

use crate::key::Pubkey;

verus! {

/// The address derived from `seed` for the program `program_id`, with its
/// bump seed, or none where no bump seed gives an address off the curve.
pub uninterp spec fn program_address(seed: Seq<u8>, program_id: Seq<u8>) -> Option<(Seq<u8>, u8)>;

/// Bytes of the clock sysvar's address, `SysvarC1ock11111111111111111111111111111111`.
pub open spec fn clock_sysvar_bytes() -> Seq<u8> {
    seq![
        6u8, 167, 213, 23, 24, 199, 116, 201, 40, 86, 99, 152, 105, 29, 94, 182, 139, 94, 184, 163,
        155, 75, 109, 92, 115, 85, 91, 33, 0, 0, 0, 0,
    ]
}

/// Bytes of the rent sysvar's address, `SysvarRent111111111111111111111111111111111`.
pub open spec fn rent_sysvar_bytes() -> Seq<u8> {
    seq![
        6u8, 167, 213, 23, 25, 44, 92, 81, 33, 140, 201, 76, 61, 74, 241, 127, 88, 218, 238, 8,
        155, 161, 253, 68, 227, 219, 217, 138, 0, 0, 0, 0,
    ]
}

/// Bytes of the token program's address, `TokenkegQfeZyiNwAJbNbGKPFXCWuBvf9Ss623VQ5DA`.
pub open spec fn token_program_bytes() -> Seq<u8> {
    seq![
        6u8, 221, 246, 225, 215, 101, 161, 147, 217, 203, 225, 70, 206, 235, 121, 172, 28, 180,
        133, 237, 95, 91, 55, 145, 58, 140, 245, 133, 126, 255, 0, 169,
    ]
}

/// Relies on `solana_program::sysvar::clock::id`, the address declared as
/// `SysvarC1ock11111111111111111111111111111111`.
#[verifier::external_body]
pub(crate) fn clock_sysvar_id() -> (r: Pubkey)
    ensures
        r.bytes() == clock_sysvar_bytes(),
{
    Pubkey(solana_program::sysvar::clock::id().to_bytes())
}

/// Relies on `solana_program::sysvar::rent::id`, the address declared as
/// `SysvarRent111111111111111111111111111111111`.
#[verifier::external_body]
pub(crate) fn rent_sysvar_id() -> (r: Pubkey)
    ensures
        r.bytes() == rent_sysvar_bytes(),
{
    Pubkey(solana_program::sysvar::rent::id().to_bytes())
}

/// Relies on `spl_token::id`, the address declared as
/// `TokenkegQfeZyiNwAJbNbGKPFXCWuBvf9Ss623VQ5DA`.
#[verifier::external_body]
pub(crate) fn token_program_id() -> (r: Pubkey)
    ensures
        r.bytes() == token_program_bytes(),
{
    Pubkey(spl_token::id().to_bytes())
}

/// Relies on `solana_program::pubkey::Pubkey::try_find_program_address` with the
/// one seed `seed`: its result depends on the seed and the program alone, and it
/// returns none where no bump seed gives a valid address.
#[verifier::external_body]
pub(crate) fn find_program_address(seed: &Pubkey, program_id: &Pubkey) -> (r: Option<(Pubkey, u8)>)
    ensures
        r is Some ==> program_address(seed.bytes(), program_id.bytes()) == Some(
            (r->Some_0.0.bytes(), r->Some_0.1),
        ),
        r is None ==> program_address(seed.bytes(), program_id.bytes()) is None,
{
    let program = solana_program::pubkey::Pubkey::new_from_array(program_id.0);
    solana_program::pubkey::Pubkey::try_find_program_address(&[&seed.0], &program).map(
        |(k, b)| (Pubkey(k.to_bytes()), b),
    )
}

} // verus!
