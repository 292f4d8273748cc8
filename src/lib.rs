use vstd::prelude::*;

pub mod balances;
pub mod proof_of_existence;
pub mod runtime;
pub mod store;
pub mod support;
pub mod system;
pub mod types;

verus! {

} // verus!
