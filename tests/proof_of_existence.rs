use state_machine::proof_of_existence::Pallet;
use state_machine::support::DispatchError;

#[test]
fn basic_proof_of_existence() {
    let mut poe = Pallet::new();
    let _ = poe.create_claim("alice".to_string(), "alice_claim".to_string());
    assert_eq!(poe.get_claim(&"alice_claim".to_string()), Some(&"alice".to_string()));

    let res = poe.revoke_claim("bob".to_string(), "alice_claim".to_string());
    assert_eq!(res.map_err(|e| e.message()), Err("Caller is not the owner of claim"));

    let res = poe.create_claim("bob".to_string(), "alice_claim".to_string());
    assert_eq!(res.map_err(|e| e.message()), Err("Claim already exists"));

    let res = poe.revoke_claim("alice".to_string(), "non existent claim".to_string());
    assert_eq!(res.map_err(|e| e.message()), Err("Claim does not exists"));

    let res = poe.revoke_claim("alice".to_string(), "alice_claim".to_string());
    assert_eq!(res, Ok(()));
    assert_eq!(poe.get_claim(&"alice_claim".to_string()), None);
}

#[test]
fn claim_is_exclusive() {
    let mut poe = Pallet::new();
    assert_eq!(poe.create_claim("alice".to_string(), "c".to_string()), Ok(()));
    assert_eq!(
        poe.create_claim("alice".to_string(), "c".to_string()),
        Err(DispatchError::ClaimAlreadyExists)
    );
    assert_eq!(
        poe.create_claim("bob".to_string(), "c".to_string()),
        Err(DispatchError::ClaimAlreadyExists)
    );
    assert_eq!(
        poe.revoke_claim("bob".to_string(), "c".to_string()),
        Err(DispatchError::NotClaimOwner)
    );
    assert_eq!(poe.get_claim(&"c".to_string()), Some(&"alice".to_string()));
}

#[test]
fn revoked_claim_can_be_reused() {
    let mut poe = Pallet::new();
    assert_eq!(poe.create_claim("alice".to_string(), "c".to_string()), Ok(()));
    assert_eq!(poe.revoke_claim("alice".to_string(), "c".to_string()), Ok(()));
    assert_eq!(poe.get_claim(&"c".to_string()), None);
    assert_eq!(
        poe.revoke_claim("alice".to_string(), "c".to_string()),
        Err(DispatchError::ClaimNotFound)
    );
    assert_eq!(poe.create_claim("bob".to_string(), "c".to_string()), Ok(()));
    assert_eq!(poe.get_claim(&"c".to_string()), Some(&"bob".to_string()));
}
