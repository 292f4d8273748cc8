use vstd::prelude::*;

use crate::store::StringMap;
use crate::support::{DispatchError, DispatchResult};
use crate::types::{AccountId, BlockNumber, Nonce};

verus! {

/// The nonce of an account in a nonce map: zero where it has none.
pub open spec fn nonce_in(nonces: Map<Seq<char>, Nonce>, who: Seq<char>) -> Nonce {
    if nonces.contains_key(who) {
        nonces[who]
    } else {
        0
    }
}

/// The nonce map after the nonce of `who` went up by one, or `None` where it
/// would overflow.
pub open spec fn nonce_incremented(nonces: Map<Seq<char>, Nonce>, who: Seq<char>) -> Option<
    Map<Seq<char>, Nonce>,
> {
    if nonce_in(nonces, who) == Nonce::MAX {
        None
    } else {
        Some(nonces.insert(who, (nonce_in(nonces, who) + 1) as Nonce))
    }
}

/// The current block number and the nonce of each account.
pub struct Pallet {
    block_number: BlockNumber,
    nonce: StringMap<Nonce>,
}

impl Pallet {
    pub closed spec fn wf(&self) -> bool {
        self.nonce.wf()
    }

    pub closed spec fn spec_block_number(&self) -> BlockNumber {
        self.block_number
    }

    /// The nonces that were ever set; an account outside it has nonce zero.
    pub closed spec fn nonces(&self) -> Map<Seq<char>, Nonce> {
        self.nonce@
    }

    pub fn new() -> (r: Self)
        ensures
            r.wf(),
            r.spec_block_number() == 0,
            r.nonces() == Map::<Seq<char>, Nonce>::empty(),
    {
        Pallet { block_number: 0, nonce: StringMap::new() }
    }

    /// Advances the block number by one, or fails where it would overflow.
    pub fn inc_block_number(&mut self) -> (r: DispatchResult)
        requires
            old(self).wf(),
        ensures
            final(self).wf(),
            final(self).nonces() == old(self).nonces(),
            old(self).spec_block_number() == BlockNumber::MAX ==> r == Err::<(), DispatchError>(
                DispatchError::BlockNumberOverflow,
            ) && final(self).spec_block_number() == old(self).spec_block_number(),
            old(self).spec_block_number() < BlockNumber::MAX ==> r == Ok::<(), DispatchError>(())
                && final(self).spec_block_number() == old(self).spec_block_number() + 1,
    {
        match self.block_number.checked_add(1) {
            Some(n) => {
                self.block_number = n;
                Ok(())
            },
            None => Err(DispatchError::BlockNumberOverflow),
        }
    }

    pub fn block_number(&self) -> (r: BlockNumber)
        ensures
            r == self.spec_block_number(),
    {
        self.block_number
    }

    /// Advances the nonce of `who` by one, or fails where it would overflow.
    pub fn inc_nonce(&mut self, who: &AccountId) -> (r: DispatchResult)
        requires
            old(self).wf(),
        ensures
            final(self).wf(),
            final(self).spec_block_number() == old(self).spec_block_number(),
            match nonce_incremented(old(self).nonces(), who@) {
                Some(m) => r == Ok::<(), DispatchError>(()) && final(self).nonces() == m,
                None => r == Err::<(), DispatchError>(DispatchError::NonceOverflow)
                    && final(self).nonces() == old(self).nonces(),
            },
    {
        let current = self.nonce(who);
        match current.checked_add(1) {
            Some(n) => {
                self.nonce.insert(who, n);
                Ok(())
            },
            None => Err(DispatchError::NonceOverflow),
        }
    }

    pub fn nonce(&self, who: &AccountId) -> (r: Nonce)
        requires
            self.wf(),
        ensures
            r == nonce_in(self.nonces(), who@),
    {
        match self.nonce.get(who) {
            Some(n) => *n,
            None => 0,
        }
    }
}

} // verus!
