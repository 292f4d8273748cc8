use vstd::prelude::*;

use crate::balances;
use crate::proof_of_existence;
use crate::store::StringMap;
use crate::support::{Block, DispatchError, DispatchResult, Extrinsic, ExtrinsicFailure};
use crate::system;
use crate::system::{nonce_in, nonce_incremented};
use crate::types::{AccountId, Balance, BlockNumber, Nonce};

verus! {

/// A call addressed to one module of the runtime.
pub enum RuntimeCall {
    Balances(balances::Call),
    ProofOfExistence(proof_of_existence::Call),
}

/// The abstract state of a runtime: block number, nonces, balances and
/// claims (content to owner).
pub struct RuntimeState {
    pub block_number: BlockNumber,
    pub nonces: Map<Seq<char>, Nonce>,
    pub balances: Map<Seq<char>, Balance>,
    pub claims: Map<Seq<char>, Seq<char>>,
}

/// What dispatching `call` for `caller` makes of a state: the addressed
/// module's outcome, with every other part of the state left alone.
pub open spec fn dispatch_outcome(s: RuntimeState, caller: Seq<char>, call: RuntimeCall) -> Result<
    RuntimeState,
    DispatchError,
> {
    match call {
        RuntimeCall::Balances(c) => match balances::call_outcome(s.balances, caller, c) {
            Ok(m) => Ok(RuntimeState { balances: m, ..s }),
            Err(e) => Err(e),
        },
        RuntimeCall::ProofOfExistence(c) => match proof_of_existence::call_outcome(
            s.claims,
            caller,
            c,
        ) {
            Ok(m) => Ok(RuntimeState { claims: m, ..s }),
            Err(e) => Err(e),
        },
    }
}

/// What one extrinsic makes of a state: the caller's nonce goes up by one
/// whatever the call does, then the call is dispatched, and its error, if
/// any, is handed back beside the state. Only a nonce overflow stops it.
pub open spec fn extrinsic_outcome(s: RuntimeState, caller: Seq<char>, call: RuntimeCall) -> Result<
    (RuntimeState, Option<DispatchError>),
    DispatchError,
> {
    match nonce_incremented(s.nonces, caller) {
        None => Err(DispatchError::NonceOverflow),
        Some(n) => {
            let s1 = RuntimeState { nonces: n, ..s };
            match dispatch_outcome(s1, caller, call) {
                Ok(s2) => Ok((s2, None)),
                Err(e) => Ok((s1, Some(e))),
            }
        },
    }
}

/// What running the extrinsics in order makes of a state: the final state,
/// the failures recorded on the way, and the error that stopped the run, if
/// any.
pub open spec fn extrinsics_outcome(s: RuntimeState, exts: Seq<Extrinsic>) -> (
    RuntimeState,
    Seq<ExtrinsicFailure>,
    Option<DispatchError>,
)
    decreases exts.len(),
{
    if exts.len() == 0 {
        (s, Seq::empty(), None)
    } else {
        let (s1, failures, stop) = extrinsics_outcome(s, exts.drop_last());
        if stop is Some {
            (s1, failures, stop)
        } else {
            match extrinsic_outcome(s1, exts.last().caller@, exts.last().call) {
                Err(e) => (s1, failures, Some(e)),
                Ok((s2, None)) => (s2, failures, None),
                Ok((s2, Some(e))) => (
                    s2,
                    failures.push(
                        ExtrinsicFailure {
                            block_number: s.block_number,
                            index: (exts.len() - 1) as usize,
                            error: e,
                        },
                    ),
                    None,
                ),
            }
        }
    }
}

proof fn lemma_stop_persists(s: RuntimeState, exts: Seq<Extrinsic>, k: int)
    requires
        0 <= k <= exts.len(),
        extrinsics_outcome(s, exts.subrange(0, k)).2 is Some,
    ensures
        extrinsics_outcome(s, exts) == extrinsics_outcome(s, exts.subrange(0, k)),
    decreases exts.len(),
{
    if k < exts.len() {
        assert(exts.drop_last().subrange(0, k) =~= exts.subrange(0, k));
        lemma_stop_persists(s, exts.drop_last(), k);
    } else {
        assert(exts.subrange(0, k) =~= exts);
    }
}

/// The nonce map after each extrinsic's caller has had its nonce raised by
/// one, in order, or `None` where one of them would overflow.
pub open spec fn nonces_after(nonces: Map<Seq<char>, Nonce>, exts: Seq<Extrinsic>) -> Option<
    Map<Seq<char>, Nonce>,
>
    decreases exts.len(),
{
    if exts.len() == 0 {
        Some(nonces)
    } else {
        match nonces_after(nonces, exts.drop_last()) {
            Some(m) => nonce_incremented(m, exts.last().caller@),
            None => None,
        }
    }
}

/// Only the nonces decide whether a run of extrinsics is stopped, and the
/// only error that stops it is a nonce overflow.
proof fn lemma_nonces_decide(s: RuntimeState, exts: Seq<Extrinsic>)
    ensures
        (extrinsics_outcome(s, exts).2 is None) == (nonces_after(s.nonces, exts) is Some),
        nonces_after(s.nonces, exts) is Some ==> extrinsics_outcome(s, exts).0.nonces
            == nonces_after(s.nonces, exts)->Some_0,
        extrinsics_outcome(s, exts).2 is Some ==> extrinsics_outcome(s, exts).2
            == Some(DispatchError::NonceOverflow),
    decreases exts.len(),
{
    if exts.len() > 0 {
        lemma_nonces_decide(s, exts.drop_last());
    }
}

proof fn lemma_nonces_none_persists(nonces: Map<Seq<char>, Nonce>, exts: Seq<Extrinsic>, k: int)
    requires
        0 <= k <= exts.len(),
        nonces_after(nonces, exts.subrange(0, k)) is None,
    ensures
        nonces_after(nonces, exts) is None,
    decreases exts.len(),
{
    if k < exts.len() {
        assert(exts.drop_last().subrange(0, k) =~= exts.subrange(0, k));
        lemma_nonces_none_persists(nonces, exts.drop_last(), k);
    } else {
        assert(exts.subrange(0, k) =~= exts);
    }
}

/// What executing a block makes of a state. A block is rejected, with the
/// state left as it was, where the block number would overflow, where its
/// header does not carry the next block number, or where running it would
/// overflow a caller's nonce. Otherwise the block number is advanced and the
/// extrinsics run in order; a failing call is recorded and never rejects the
/// block.
pub open spec fn block_outcome(s: RuntimeState, block: Block) -> (
    RuntimeState,
    Seq<ExtrinsicFailure>,
    DispatchResult,
) {
    if s.block_number == BlockNumber::MAX {
        (s, Seq::empty(), Err(DispatchError::BlockNumberOverflow))
    } else if block.header.block_number != s.block_number + 1 {
        (s, Seq::empty(), Err(DispatchError::BlockNumberMismatch))
    } else {
        let s1 = RuntimeState { block_number: (s.block_number + 1) as BlockNumber, ..s };
        let (s2, failures, stop) = extrinsics_outcome(s1, block.extrinsics@);
        match stop {
            None => (s2, failures, Ok(())),
            Some(e) => (s, Seq::empty(), Err(e)),
        }
    }
}

/// Every executed extrinsic raises its caller's nonce by exactly one, whether
/// its call succeeds or fails, and leaves every other account's nonce alone.
pub proof fn lemma_nonce_monotonic(s: RuntimeState, caller: Seq<char>, call: RuntimeCall, other: Seq<char>)
    requires
        extrinsic_outcome(s, caller, call) is Ok,
    ensures
        nonce_in((extrinsic_outcome(s, caller, call)->Ok_0).0.nonces, caller) == nonce_in(s.nonces, caller) + 1,
        other != caller ==> nonce_in((extrinsic_outcome(s, caller, call)->Ok_0).0.nonces, other) == nonce_in(s.nonces, other),
{
}

/// A block whose header does not carry the next block number is rejected
/// with `BlockNumberMismatch` (with `BlockNumberOverflow` where no next
/// number exists), records nothing, and leaves balances, nonces, claims and
/// the block number as they were.
pub proof fn lemma_header_gate(s: RuntimeState, block: Block)
    requires
        block.header.block_number != s.block_number + 1,
    ensures
        s.block_number < BlockNumber::MAX ==> block_outcome(s, block).2 == Err::<(), DispatchError>(
            DispatchError::BlockNumberMismatch,
        ),
        block_outcome(s, block).2 is Err,
        block_outcome(s, block).1 == Seq::<ExtrinsicFailure>::empty(),
        block_outcome(s, block).0 == s,
{
}

/// The aggregate of the modules, each owning its slice of the state.
pub struct Runtime {
    pub system: system::Pallet,
    pub balances: balances::Pallet,
    pub proof_of_existence: proof_of_existence::Pallet,
}

impl Runtime {
    pub open spec fn wf(&self) -> bool {
        &&& self.system.wf()
        &&& self.balances.wf()
        &&& self.proof_of_existence.wf()
    }

    pub open spec fn state(&self) -> RuntimeState {
        RuntimeState {
            block_number: self.system.spec_block_number(),
            nonces: self.system.nonces(),
            balances: self.balances.balances(),
            claims: self.proof_of_existence.claims(),
        }
    }

    pub fn new() -> (r: Self)
        ensures
            r.wf(),
            r.state() == (RuntimeState {
                block_number: 0,
                nonces: Map::empty(),
                balances: Map::empty(),
                claims: Map::empty(),
            }),
    {
        Runtime {
            system: system::Pallet::new(),
            balances: balances::Pallet::new(),
            proof_of_existence: proof_of_existence::Pallet::new(),
        }
    }

    /// Routes `call` to the module it names and hands back that module's result.
    pub fn dispatch(&mut self, caller: AccountId, call: RuntimeCall) -> (r: DispatchResult)
        requires
            old(self).wf(),
        ensures
            final(self).wf(),
            match dispatch_outcome(old(self).state(), caller@, call) {
                Ok(s) => r == Ok::<(), DispatchError>(()) && final(self).state() == s,
                Err(e) => r == Err::<(), DispatchError>(e) && final(self).state() == old(self).state(),
            },
    {
        match call {
            RuntimeCall::Balances(c) => self.balances.dispatch(caller, c),
            RuntimeCall::ProofOfExistence(c) => self.proof_of_existence.dispatch(caller, c),
        }
    }

    /// Whether every caller's nonce can be raised once for each of its
    /// extrinsics without overflowing.
    fn nonces_suffice(&self, exts: &Vec<Extrinsic>) -> (r: bool)
        requires
            self.wf(),
        ensures
            r == nonces_after(self.system.nonces(), exts@) is Some,
    {
        let ghost base = self.system.nonces();
        // the nonce that each caller seen so far will have reached
        let mut reached: StringMap<Nonce> = StringMap::new();
        let mut i: usize = 0;
        assert(exts@.subrange(0, 0) =~= Seq::<Extrinsic>::empty());
        while i < exts.len()
            invariant
                self.wf(),
                reached.wf(),
                base == self.system.nonces(),
                i <= exts@.len(),
                nonces_after(base, exts@.subrange(0, i as int)) is Some,
                forall|k: Seq<char>|
                    #[trigger] nonce_in(nonces_after(base, exts@.subrange(0, i as int))->Some_0, k)
                        == if reached@.contains_key(k) {
                        reached@[k]
                    } else {
                        nonce_in(base, k)
                    },
            decreases exts@.len() - i,
        {
            let ghost done = exts@.subrange(0, i as int + 1);
            assert(done.drop_last() =~= exts@.subrange(0, i as int));
            let caller = &exts[i].caller;
            let current: Nonce = match reached.get(caller) {
                Some(n) => *n,
                None => self.system.nonce(caller),
            };
            let ghost m = nonces_after(base, exts@.subrange(0, i as int))->Some_0;
            assert(nonce_in(m, caller@) == current);
            match current.checked_add(1) {
                Some(n) => {
                    reached.insert(caller, n);
                },
                None => {
                    proof {
                        lemma_nonces_none_persists(base, exts@, i as int + 1);
                    }
                    return false;
                },
            }
            let ghost m2 = nonces_after(base, done)->Some_0;
            assert(m2 == m.insert(caller@, (current + 1) as Nonce));
            assert forall|k: Seq<char>|
                #[trigger] nonce_in(m2, k) == if reached@.contains_key(k) {
                    reached@[k]
                } else {
                    nonce_in(base, k)
                } by {
                if k != caller@ {
                    assert(nonce_in(m2, k) == nonce_in(m, k));
                }
            }
            i = i + 1;
        }
        assert(exts@.subrange(0, exts@.len() as int) =~= exts@);
        true
    }

    /// Executes a block and appends to `failures` a record of each extrinsic
    /// whose call failed. Only a header mismatch or a counter overflow
    /// rejects the block, and a rejected block changes nothing; a failing
    /// call never rejects it.
    pub fn execute_block_reporting(&mut self, block: Block, failures: &mut Vec<ExtrinsicFailure>) -> (r:
        DispatchResult)
        requires
            old(self).wf(),
        ensures
            final(self).wf(),
            final(self).state() == block_outcome(old(self).state(), block).0,
            final(failures)@ == old(failures)@ + block_outcome(old(self).state(), block).1,
            r == block_outcome(old(self).state(), block).2,
    {
        let ghost s0 = self.state();
        assert(failures@ =~= failures@ + Seq::<ExtrinsicFailure>::empty());
        let number = match self.system.block_number().checked_add(1) {
            Some(n) => n,
            None => {
                return Err(DispatchError::BlockNumberOverflow);
            },
        };
        if number != block.header.block_number {
            return Err(DispatchError::BlockNumberMismatch);
        }
        let ghost s1 = RuntimeState { block_number: number, ..s0 };
        proof {
            lemma_nonces_decide(s1, block.extrinsics@);
        }
        if !self.nonces_suffice(&block.extrinsics) {
            return Err(DispatchError::NonceOverflow);
        }
        match self.system.inc_block_number() {
            Ok(()) => {},
            Err(e) => {
                return Err(e);
            },
        }
        assert(self.state() == s1);
        let ghost start = failures@;
        let ghost all = block.extrinsics@;
        let mut pending = block.extrinsics;
        let n = pending.len();
        let mut i: usize = 0;
        assert(all.subrange(0, 0) =~= Seq::<Extrinsic>::empty());
        while i < n
            invariant
                self.wf(),
                n == all.len(),
                i <= n,
                pending@ == all.subrange(i as int, n as int),
                s1.block_number == number,
                all == block.extrinsics@,
                s0 == old(self).state(),
                start == old(failures)@,
                s0.block_number < BlockNumber::MAX,
                block.header.block_number == number,
                s1 == (RuntimeState { block_number: (s0.block_number + 1) as BlockNumber, ..s0 }),
                extrinsics_outcome(s1, all).2 is None,
                self.state() == extrinsics_outcome(s1, all.subrange(0, i as int)).0,
                failures@ == start + extrinsics_outcome(s1, all.subrange(0, i as int)).1,
                extrinsics_outcome(s1, all.subrange(0, i as int)).2 is None,
            decreases n - i,
        {
            let ghost done = all.subrange(0, i as int + 1);
            assert(done.drop_last() =~= all.subrange(0, i as int));
            let ext = pending.remove(0);
            assert(ext == all[i as int]);
            assert(done.last() == all[i as int]);
            let Extrinsic { caller, call } = ext;
            let ghost before = self.state();
            match self.system.inc_nonce(&caller) {
                Ok(()) => {},
                Err(e) => {
                    proof {
                        assert(nonce_incremented(before.nonces, caller@) is None);
                        assert(extrinsics_outcome(s1, done).2 is Some);
                        lemma_stop_persists(s1, all, i as int + 1);
                    }
                    return Err(e);
                },
            }
            match self.dispatch(caller, call) {
                Ok(()) => {},
                Err(e) => {
                    failures.push(ExtrinsicFailure { block_number: number, index: i, error: e });
                },
            }
            assert(pending@ =~= all.subrange(i as int + 1, n as int));
            i = i + 1;
        }
        assert(all.subrange(0, n as int) =~= all);
        Ok(())
    }

    /// Executes a block, with the outcome of `execute_block_reporting`, for
    /// a caller that has no use for the records of failed calls.
    pub fn execute_block(&mut self, block: Block) -> (r: DispatchResult)
        requires
            old(self).wf(),
        ensures
            final(self).wf(),
            final(self).state() == block_outcome(old(self).state(), block).0,
            r == block_outcome(old(self).state(), block).2,
    {
        let mut failures: Vec<ExtrinsicFailure> = Vec::new();
        self.execute_block_reporting(block, &mut failures)
    }
}

} // verus!
