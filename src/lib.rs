use vstd::prelude::*;

pub mod address;
pub mod bytes;
pub mod decimal;
pub mod error;
pub mod instruction;
pub mod key;
pub mod state;

verus! {

} // verus!
