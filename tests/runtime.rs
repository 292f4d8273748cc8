use state_machine::balances;
use state_machine::proof_of_existence;
use state_machine::runtime::{Runtime, RuntimeCall};
use state_machine::support::{Block, DispatchError, Extrinsic, ExtrinsicFailure, Header};

fn transfer(caller: &str, to: &str, amount: u128) -> Extrinsic {
    Extrinsic {
        caller: caller.to_string(),
        call: RuntimeCall::Balances(balances::Call::Transfer { to: to.to_string(), amount }),
    }
}

fn create(caller: &str, claim: &str) -> Extrinsic {
    Extrinsic {
        caller: caller.to_string(),
        call: RuntimeCall::ProofOfExistence(proof_of_existence::Call::CreateClaim {
            claim: claim.to_string(),
        }),
    }
}

fn revoke(caller: &str, claim: &str) -> Extrinsic {
    Extrinsic {
        caller: caller.to_string(),
        call: RuntimeCall::ProofOfExistence(proof_of_existence::Call::RevokeClaim {
            claim: claim.to_string(),
        }),
    }
}

fn block(number: u32, extrinsics: Vec<Extrinsic>) -> Block {
    Block { header: Header { block_number: number }, extrinsics }
}

#[test]
fn chained_transfers_in_one_block() {
    let alice = "alice".to_string();
    let bob = "bob".to_string();
    let charlie = "charlie".to_string();
    let mut runtime = Runtime::new();
    runtime.balances.set_balance(&alice, 100);
    let b = block(1, vec![transfer("alice", "bob", 20), transfer("bob", "charlie", 10)]);
    assert_eq!(runtime.execute_block(b), Ok(()));
    assert_eq!(runtime.balances.balance(&alice), 80);
    assert_eq!(runtime.balances.balance(&bob), 10);
    assert_eq!(runtime.balances.balance(&charlie), 10);
    assert_eq!(runtime.system.nonce(&alice), 1);
    assert_eq!(runtime.system.nonce(&bob), 1);
    assert_eq!(runtime.system.nonce(&charlie), 0);
    assert_eq!(runtime.system.block_number(), 1);
}

#[test]
fn overflowing_transfer_still_spends_nonce() {
    let alice = "alice".to_string();
    let bob = "bob".to_string();
    let mut runtime = Runtime::new();
    runtime.balances.set_balance(&alice, 100);
    runtime.balances.set_balance(&bob, u128::MAX);
    let mut failures = Vec::new();
    let b = block(1, vec![transfer("alice", "bob", 10)]);
    assert_eq!(runtime.execute_block_reporting(b, &mut failures), Ok(()));
    assert_eq!(
        failures,
        vec![ExtrinsicFailure { block_number: 1, index: 0, error: DispatchError::Overflow }]
    );
    assert_eq!(runtime.balances.balance(&alice), 100);
    assert_eq!(runtime.balances.balance(&bob), u128::MAX);
    assert_eq!(runtime.system.nonce(&alice), 1);
    assert_eq!(runtime.system.nonce(&bob), 0);
}

#[test]
fn claim_lifecycle_across_blocks() {
    let alice = "alice".to_string();
    let doc = "doc1".to_string();
    let mut runtime = Runtime::new();
    assert_eq!(runtime.execute_block(block(1, vec![])), Ok(()));
    let mut failures = Vec::new();
    let b = block(2, vec![create("alice", "doc1"), revoke("bob", "doc1"), revoke("alice", "doc1")]);
    assert_eq!(runtime.execute_block_reporting(b, &mut failures), Ok(()));
    assert_eq!(
        failures,
        vec![ExtrinsicFailure { block_number: 2, index: 1, error: DispatchError::NotClaimOwner }]
    );
    assert_eq!(runtime.proof_of_existence.get_claim(&doc), None);
    assert_eq!(runtime.system.nonce(&alice), 2);
    assert_eq!(runtime.system.nonce(&"bob".to_string()), 1);
}

#[test]
fn wrong_header_rejects_block() {
    let alice = "alice".to_string();
    let bob = "bob".to_string();
    let mut runtime = Runtime::new();
    runtime.balances.set_balance(&alice, 100);
    let b = block(5, vec![transfer("alice", "bob", 20), create("alice", "doc")]);
    assert_eq!(runtime.execute_block(b), Err(DispatchError::BlockNumberMismatch));
    assert_eq!(DispatchError::BlockNumberMismatch.message(), "Block number mismatch");
    assert_eq!(runtime.balances.balance(&alice), 100);
    assert_eq!(runtime.balances.balance(&bob), 0);
    assert_eq!(runtime.system.nonce(&alice), 0);
    assert_eq!(runtime.proof_of_existence.get_claim(&"doc".to_string()), None);
    assert_eq!(runtime.system.block_number(), 0);
    let b = block(1, vec![transfer("alice", "bob", 20)]);
    assert_eq!(runtime.execute_block(b), Ok(()));
    assert_eq!(runtime.system.block_number(), 1);
    assert_eq!(runtime.balances.balance(&bob), 20);
}

#[test]
fn self_transfer_in_block_conserves() {
    let alice = "alice".to_string();
    let mut runtime = Runtime::new();
    runtime.balances.set_balance(&alice, 10);
    assert_eq!(runtime.execute_block(block(1, vec![transfer("alice", "alice", 4)])), Ok(()));
    assert_eq!(runtime.balances.balance(&alice), 10);
    assert_eq!(runtime.system.nonce(&alice), 1);
}

#[test]
fn dispatch_routes_to_module() {
    let alice = "alice".to_string();
    let mut runtime = Runtime::new();
    runtime.balances.set_balance(&alice, 3);
    let call = RuntimeCall::Balances(balances::Call::Transfer { to: "bob".to_string(), amount: 4 });
    assert_eq!(runtime.dispatch(alice.clone(), call), Err(DispatchError::InsufficientBalance));
    let call = RuntimeCall::ProofOfExistence(proof_of_existence::Call::CreateClaim {
        claim: "x".to_string(),
    });
    assert_eq!(runtime.dispatch(alice.clone(), call), Ok(()));
    assert_eq!(runtime.proof_of_existence.get_claim(&"x".to_string()), Some(&alice));
    assert_eq!(runtime.system.nonce(&alice), 0);
}
