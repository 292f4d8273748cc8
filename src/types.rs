use vstd::prelude::*;

verus! {

/// The concrete types that every module of the runtime binds to.
pub type AccountId = String;

pub type BlockNumber = u32;

pub type Nonce = u32;

pub type Balance = u128;

pub type Content = String;

} // verus!
