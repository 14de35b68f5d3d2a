use solana_program::program_error::ProgramError;
use vstd::prelude::*;

verus! {

/// Why a buffer could not be decoded.
#[derive(Debug, PartialEq, Eq)]
pub enum StakingError {
    /// Instruction data that is empty, has an unknown tag, ends inside a field
    /// or has bytes left after the last field.
    MalformedInstruction,
    /// A record buffer shorter than the record's fixed length.
    BufferTooSmall,
    /// A record whose version is newer than this program's.
    UnsupportedVersion,
    /// A decimal field that its codec refused, as the codec reported it.
    Decimal(ProgramError),
}

} // verus!
