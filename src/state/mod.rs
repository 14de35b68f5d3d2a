use vstd::prelude::*;

pub mod stake_account;
pub mod staking_pool;

verus! {

/// Version of the program, stamped on every newly created record.
pub const PROGRAM_VERSION: u8 = 1;

/// Records are created with their data zeroed, so a record that was never
/// written has this version.
pub const UNINITIALIZED_VERSION: u8 = 0;

/// Number of reserved bytes at the end of each record.
pub const RESERVED_LEN: usize = 128;

/// The four 32-byte reserved blocks of a record are all zero.
pub open spec fn reserved_is_zero(a: [u8; 32], b: [u8; 32], c: [u8; 32], d: [u8; 32]) -> bool {
    &&& forall|i: int| 0 <= i < 32 ==> a[i] == 0
    &&& forall|i: int| 0 <= i < 32 ==> b[i] == 0
    &&& forall|i: int| 0 <= i < 32 ==> c[i] == 0
    &&& forall|i: int| 0 <= i < 32 ==> d[i] == 0
}

} // verus!
