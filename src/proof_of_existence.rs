use vstd::prelude::*;

use crate::store::StringMap;
use crate::support::{DispatchError, DispatchResult};
use crate::types::{AccountId, Content};

verus! {

/// What registering `claim` for `caller` makes of a claim map (content to owner).
pub open spec fn create_outcome(
    claims: Map<Seq<char>, Seq<char>>,
    caller: Seq<char>,
    claim: Seq<char>,
) -> Result<Map<Seq<char>, Seq<char>>, DispatchError> {
    if claims.contains_key(claim) {
        Err(DispatchError::ClaimAlreadyExists)
    } else {
        Ok(claims.insert(claim, caller))
    }
}

/// What revoking `claim` on behalf of `caller` makes of a claim map.
pub open spec fn revoke_outcome(
    claims: Map<Seq<char>, Seq<char>>,
    caller: Seq<char>,
    claim: Seq<char>,
) -> Result<Map<Seq<char>, Seq<char>>, DispatchError> {
    if !claims.contains_key(claim) {
        Err(DispatchError::ClaimNotFound)
    } else if claims[claim] != caller {
        Err(DispatchError::NotClaimOwner)
    } else {
        Ok(claims.remove(claim))
    }
}

/// The operations of this module that an extrinsic can call.
pub enum Call {
    CreateClaim { claim: Content },
    RevokeClaim { claim: Content },
}

/// What a call of this module makes of a claim map.
pub open spec fn call_outcome(claims: Map<Seq<char>, Seq<char>>, caller: Seq<char>, call: Call) -> Result<
    Map<Seq<char>, Seq<char>>,
    DispatchError,
> {
    match call {
        Call::CreateClaim { claim } => create_outcome(claims, caller, claim@),
        Call::RevokeClaim { claim } => revoke_outcome(claims, caller, claim@),
    }
}

/// Once `a` holds `claim`, nobody can register it again, and nobody but `a`
/// can revoke it.
pub proof fn lemma_claim_exclusive(
    claims: Map<Seq<char>, Seq<char>>,
    a: Seq<char>,
    b: Seq<char>,
    claim: Seq<char>,
)
    requires
        create_outcome(claims, a, claim) is Ok,
    ensures
        create_outcome(create_outcome(claims, a, claim)->Ok_0, b, claim) == Err::<
            Map<Seq<char>, Seq<char>>,
            DispatchError,
        >(DispatchError::ClaimAlreadyExists),
        b != a ==> revoke_outcome(create_outcome(claims, a, claim)->Ok_0, b, claim) == Err::<
            Map<Seq<char>, Seq<char>>,
            DispatchError,
        >(DispatchError::NotClaimOwner),
{
}

/// Once `a` has revoked `claim`, it has no owner and anyone can register it.
pub proof fn lemma_claim_reusable(
    claims: Map<Seq<char>, Seq<char>>,
    a: Seq<char>,
    b: Seq<char>,
    claim: Seq<char>,
)
    requires
        revoke_outcome(claims, a, claim) is Ok,
    ensures
        !(revoke_outcome(claims, a, claim)->Ok_0).contains_key(claim),
        create_outcome(revoke_outcome(claims, a, claim)->Ok_0, b, claim) is Ok,
{
}

/// The owner of each registered claim.
pub struct Pallet {
    claims: StringMap<AccountId>,
}

impl Pallet {
    pub closed spec fn wf(&self) -> bool {
        self.claims.wf()
    }

    /// The registered claims, each with the text of its owner.
    pub closed spec fn claims(&self) -> Map<Seq<char>, Seq<char>> {
        self.claims@.map_values(|owner: AccountId| owner@)
    }

    pub fn new() -> (r: Self)
        ensures
            r.wf(),
            r.claims() == Map::<Seq<char>, Seq<char>>::empty(),
    {
        let r = Pallet { claims: StringMap::new() };
        assert(r.claims() =~= Map::<Seq<char>, Seq<char>>::empty());
        r
    }

    pub fn get_claim(&self, claim: &Content) -> (r: Option<&AccountId>)
        requires
            self.wf(),
        ensures
            match r {
                Some(owner) => self.claims().contains_key(claim@) && owner@ == self.claims()[claim@],
                None => !self.claims().contains_key(claim@),
            },
    {
        self.claims.get(claim)
    }

    /// Registers `claim` as owned by `caller`, unless it is registered already.
    pub fn create_claim(&mut self, caller: AccountId, claim: Content) -> (r: DispatchResult)
        requires
            old(self).wf(),
        ensures
            final(self).wf(),
            match create_outcome(old(self).claims(), caller@, claim@) {
                Ok(m) => r == Ok::<(), DispatchError>(()) && final(self).claims() == m,
                Err(e) => r == Err::<(), DispatchError>(e) && final(self).claims() == old(
                    self,
                ).claims(),
            },
    {
        match self.get_claim(&claim) {
            Some(_) => Err(DispatchError::ClaimAlreadyExists),
            None => {
                let ghost before = self.claims@;
                let ghost owner = caller@;
                self.claims.insert(&claim, caller);
                assert(self.claims() =~= before.map_values(|o: AccountId| o@).insert(claim@, owner));
                Ok(())
            },
        }
    }

    /// Removes `claim`, which must exist and be owned by `caller`.
    pub fn revoke_claim(&mut self, caller: AccountId, claim: Content) -> (r: DispatchResult)
        requires
            old(self).wf(),
        ensures
            final(self).wf(),
            match revoke_outcome(old(self).claims(), caller@, claim@) {
                Ok(m) => r == Ok::<(), DispatchError>(()) && final(self).claims() == m,
                Err(e) => r == Err::<(), DispatchError>(e) && final(self).claims() == old(
                    self,
                ).claims(),
            },
    {
        let owner = match self.claims.get(&claim) {
            Some(o) => o,
            None => {
                return Err(DispatchError::ClaimNotFound);
            },
        };
        if *owner != caller {
            return Err(DispatchError::NotClaimOwner);
        }
        let ghost before = self.claims@;
        self.claims.remove(&claim);
        assert(self.claims() =~= before.map_values(|o: AccountId| o@).remove(claim@));
        Ok(())
    }

    /// Routes a call of this module to its operation.
    pub fn dispatch(&mut self, caller: AccountId, call: Call) -> (r: DispatchResult)
        requires
            old(self).wf(),
        ensures
            final(self).wf(),
            match call_outcome(old(self).claims(), caller@, call) {
                Ok(m) => r == Ok::<(), DispatchError>(()) && final(self).claims() == m,
                Err(e) => r == Err::<(), DispatchError>(e) && final(self).claims() == old(
                    self,
                ).claims(),
            },
    {
        match call {
            Call::CreateClaim { claim } => self.create_claim(caller, claim),
            Call::RevokeClaim { claim } => self.revoke_claim(caller, claim),
        }
    }
}

} // verus!
