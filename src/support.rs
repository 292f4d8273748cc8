use vstd::prelude::*;

use crate::runtime::RuntimeCall;
use crate::types::{AccountId, BlockNumber};

verus! {

/// The reasons for which a call, or a whole block, is rejected.
#[derive(Clone, Copy, Debug, PartialEq, Eq, Structural)]
pub enum DispatchError {
    InsufficientBalance,
    Overflow,
    ClaimAlreadyExists,
    ClaimNotFound,
    NotClaimOwner,
    BlockNumberMismatch,
    NonceOverflow,
    BlockNumberOverflow,
}

impl DispatchError {
    /// A human-readable description of the error.
    pub fn message(&self) -> (r: &'static str)
        ensures
            r@ == match *self {
                DispatchError::InsufficientBalance => "Insufficient balance"@,
                DispatchError::Overflow => "Overflow when adding to balance"@,
                DispatchError::ClaimAlreadyExists => "Claim already exists"@,
                DispatchError::ClaimNotFound => "Claim does not exists"@,
                DispatchError::NotClaimOwner => "Caller is not the owner of claim"@,
                DispatchError::BlockNumberMismatch => "Block number mismatch"@,
                DispatchError::NonceOverflow => "Nonce overflow"@,
                DispatchError::BlockNumberOverflow => "Block number overflow"@,
            },
    {
        match self {
            DispatchError::InsufficientBalance => "Insufficient balance",
            DispatchError::Overflow => "Overflow when adding to balance",
            DispatchError::ClaimAlreadyExists => "Claim already exists",
            DispatchError::ClaimNotFound => "Claim does not exists",
            DispatchError::NotClaimOwner => "Caller is not the owner of claim",
            DispatchError::BlockNumberMismatch => "Block number mismatch",
            DispatchError::NonceOverflow => "Nonce overflow",
            DispatchError::BlockNumberOverflow => "Block number overflow",
        }
    }
}

pub type DispatchResult = Result<(), DispatchError>;

/// The header of a block: the number it claims to have.
pub struct Header {
    pub block_number: BlockNumber,
}

/// One signed operation: who calls, and what.
pub struct Extrinsic {
    pub caller: AccountId,
    pub call: RuntimeCall,
}

/// A unit of execution: a header and the extrinsics to run, in order.
pub struct Block {
    pub header: Header,
    pub extrinsics: Vec<Extrinsic>,
}

/// A record of an extrinsic whose call failed inside an accepted block.
#[derive(Clone, Copy, Debug, PartialEq, Eq, Structural)]
pub struct ExtrinsicFailure {
    pub block_number: BlockNumber,
    pub index: usize,
    pub error: DispatchError,
}

} // verus!
