use vstd::prelude::*;

use crate::store::StringMap;
use crate::support::{DispatchError, DispatchResult};
use crate::types::{AccountId, Balance};

verus! {

/// The balance of an account in a balance map: zero where it has none.
pub open spec fn balance_in(balances: Map<Seq<char>, Balance>, who: Seq<char>) -> Balance {
    if balances.contains_key(who) {
        balances[who]
    } else {
        0
    }
}

/// What a transfer of `amount` from `caller` to `to` makes of a balance map.
/// Both checks are made on the balances before the transfer; a transfer of an
/// account to itself that passes them leaves the map as it was.
pub open spec fn transfer_outcome(
    balances: Map<Seq<char>, Balance>,
    caller: Seq<char>,
    to: Seq<char>,
    amount: Balance,
) -> Result<Map<Seq<char>, Balance>, DispatchError> {
    let from_balance = balance_in(balances, caller);
    let to_balance = balance_in(balances, to);
    if from_balance < amount {
        Err(DispatchError::InsufficientBalance)
    } else if to_balance + amount > Balance::MAX {
        Err(DispatchError::Overflow)
    } else if caller == to {
        Ok(balances)
    } else {
        Ok(
            balances.insert(caller, (from_balance - amount) as Balance).insert(
                to,
                (to_balance + amount) as Balance,
            ),
        )
    }
}

/// The operations of this module that an extrinsic can call.
pub enum Call {
    Transfer { to: AccountId, amount: Balance },
}

/// What a call of this module makes of a balance map.
pub open spec fn call_outcome(balances: Map<Seq<char>, Balance>, caller: Seq<char>, call: Call) -> Result<
    Map<Seq<char>, Balance>,
    DispatchError,
> {
    match call {
        Call::Transfer { to, amount } => transfer_outcome(balances, caller, to@, amount),
    }
}

/// The outcome of a sequence of transfers, given as (caller, recipient, amount),
/// applied in order; the first failure ends it.
pub open spec fn transfers_outcome(
    balances: Map<Seq<char>, Balance>,
    transfers: Seq<(Seq<char>, Seq<char>, Balance)>,
) -> Result<Map<Seq<char>, Balance>, DispatchError>
    decreases transfers.len(),
{
    if transfers.len() == 0 {
        Ok(balances)
    } else {
        match transfers_outcome(balances, transfers.drop_last()) {
            Ok(m) => transfer_outcome(m, transfers.last().0, transfers.last().1, transfers.last().2),
            Err(e) => Err(e),
        }
    }
}

/// The sum of the balances of the listed accounts.
pub open spec fn sum_over(accounts: Seq<Seq<char>>, balances: Map<Seq<char>, Balance>) -> int
    decreases accounts.len(),
{
    if accounts.len() == 0 {
        0
    } else {
        sum_over(accounts.drop_last(), balances) + balance_in(balances, accounts.last())
    }
}

proof fn lemma_sum_over_insert(
    accounts: Seq<Seq<char>>,
    balances: Map<Seq<char>, Balance>,
    who: Seq<char>,
    amount: Balance,
)
    requires
        accounts.no_duplicates(),
    ensures
        sum_over(accounts, balances.insert(who, amount)) == sum_over(accounts, balances) + if accounts.contains(who) {
            amount - balance_in(balances, who)
        } else {
            0
        },
    decreases accounts.len(),
{
    if accounts.len() > 0 {
        let rest = accounts.drop_last();
        assert forall|i: int, j: int| 0 <= i < rest.len() && 0 <= j < rest.len() && i != j implies rest[i] != rest[j] by {
            assert(accounts[i] != accounts[j]);
        }
        lemma_sum_over_insert(rest, balances, who, amount);
        if accounts.last() == who {
            if rest.contains(who) {
                let i = choose|i: int| 0 <= i < rest.len() && rest[i] == who;
                assert(accounts[i] == accounts[accounts.len() - 1]);
            }
        } else {
            if accounts.contains(who) {
                let i = choose|i: int| 0 <= i < accounts.len() && accounts[i] == who;
                assert(rest[i] == who);
            }
            if rest.contains(who) {
                let i = choose|i: int| 0 <= i < rest.len() && rest[i] == who;
                assert(accounts[i] == who);
            }
        }
    }
}

/// A successful transfer keeps the sum of the balances over any list of
/// accounts that names both of its accounts.
pub proof fn lemma_transfer_conserves(
    balances: Map<Seq<char>, Balance>,
    caller: Seq<char>,
    to: Seq<char>,
    amount: Balance,
    accounts: Seq<Seq<char>>,
)
    requires
        accounts.no_duplicates(),
        accounts.contains(caller),
        accounts.contains(to),
        transfer_outcome(balances, caller, to, amount) is Ok,
    ensures
        sum_over(accounts, transfer_outcome(balances, caller, to, amount)->Ok_0) == sum_over(
            accounts,
            balances,
        ),
{
    if caller == to {
        return;
    }
    let from_balance = balance_in(balances, caller);
    let to_balance = balance_in(balances, to);
    let mid = balances.insert(caller, (from_balance - amount) as Balance);
    lemma_sum_over_insert(accounts, balances, caller, (from_balance - amount) as Balance);
    lemma_sum_over_insert(accounts, mid, to, (to_balance + amount) as Balance);
    assert(balance_in(mid, to) == to_balance);
}

/// Conservation: for any sequence of successful transfers the sum of all
/// balances is unchanged. The sum is taken
/// over any list of accounts that names every sender and recipient; every
/// account outside it keeps its balance.
pub proof fn lemma_conservation(
    balances: Map<Seq<char>, Balance>,
    transfers: Seq<(Seq<char>, Seq<char>, Balance)>,
    accounts: Seq<Seq<char>>,
)
    requires
        accounts.no_duplicates(),
        forall|i: int| 0 <= i < transfers.len() ==> accounts.contains((#[trigger] transfers[i]).0)
            && accounts.contains(transfers[i].1),
        transfers_outcome(balances, transfers) is Ok,
    ensures
        sum_over(accounts, transfers_outcome(balances, transfers)->Ok_0) == sum_over(accounts, balances),
        forall|who: Seq<char>| !accounts.contains(who) ==> balance_in(
            #[trigger] transfers_outcome(balances, transfers)->Ok_0,
            who,
        ) == balance_in(balances, who),
    decreases transfers.len(),
{
    if transfers.len() > 0 {
        let rest = transfers.drop_last();
        assert forall|i: int| 0 <= i < rest.len() implies accounts.contains((#[trigger] rest[i]).0)
            && accounts.contains(rest[i].1) by {
            assert(rest[i] == transfers[i]);
        }
        lemma_conservation(balances, rest, accounts);
        let m = transfers_outcome(balances, rest)->Ok_0;
        let t = transfers.last();
        assert(t == transfers[transfers.len() - 1]);
        lemma_transfer_conserves(m, t.0, t.1, t.2, accounts);
    }
}

/// The balance of each account.
pub struct Pallet {
    balances: StringMap<Balance>,
}

impl Pallet {
    pub closed spec fn wf(&self) -> bool {
        self.balances.wf()
    }

    /// The balances that were ever set; an account outside it has balance zero.
    pub closed spec fn balances(&self) -> Map<Seq<char>, Balance> {
        self.balances@
    }

    pub fn new() -> (r: Self)
        ensures
            r.wf(),
            r.balances() == Map::<Seq<char>, Balance>::empty(),
    {
        Pallet { balances: StringMap::new() }
    }

    /// Overwrites the balance of `who`.
    pub fn set_balance(&mut self, who: &AccountId, amount: Balance)
        requires
            old(self).wf(),
        ensures
            final(self).wf(),
            final(self).balances() == old(self).balances().insert(who@, amount),
    {
        self.balances.insert(who, amount);
    }

    pub fn balance(&self, who: &AccountId) -> (r: Balance)
        requires
            self.wf(),
        ensures
            r == balance_in(self.balances(), who@),
    {
        match self.balances.get(who) {
            Some(b) => *b,
            None => 0,
        }
    }

    /// Moves `amount` from `caller` to `to`. Both checks are made before
    /// either balance is written, so a failed transfer changes nothing, and
    /// a transfer of an account to itself changes nothing either.
    pub fn transfer(&mut self, caller: &AccountId, to: &AccountId, amount: Balance) -> (r:
        DispatchResult)
        requires
            old(self).wf(),
        ensures
            final(self).wf(),
            match transfer_outcome(old(self).balances(), caller@, to@, amount) {
                Ok(m) => r == Ok::<(), DispatchError>(()) && final(self).balances() == m,
                Err(e) => r == Err::<(), DispatchError>(e) && final(self).balances() == old(
                    self,
                ).balances(),
            },
    {
        let caller_balance = self.balance(caller);
        let to_balance = self.balance(to);
        let new_caller_balance = match caller_balance.checked_sub(amount) {
            Some(b) => b,
            None => {
                return Err(DispatchError::InsufficientBalance);
            },
        };
        let new_to_balance = match to_balance.checked_add(amount) {
            Some(b) => b,
            None => {
                return Err(DispatchError::Overflow);
            },
        };
        if *caller == *to {
            return Ok(());
        }
        self.set_balance(caller, new_caller_balance);
        self.set_balance(to, new_to_balance);
        Ok(())
    }

    /// Routes a call of this module to its operation.
    pub fn dispatch(&mut self, caller: AccountId, call: Call) -> (r: DispatchResult)
        requires
            old(self).wf(),
        ensures
            final(self).wf(),
            match call_outcome(old(self).balances(), caller@, call) {
                Ok(m) => r == Ok::<(), DispatchError>(()) && final(self).balances() == m,
                Err(e) => r == Err::<(), DispatchError>(e) && final(self).balances() == old(
                    self,
                ).balances(),
            },
    {
        match call {
            Call::Transfer { to, amount } => self.transfer(&caller, &to, amount),
        }
    }
}

} // verus!
