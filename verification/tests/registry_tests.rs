use cert_registry::Cert;
use cert_registry::ClaimRecord;
use cert_registry::Error;
use cert_registry::Event;
use cert_registry::Pallet;

fn cert(signature: Vec<u8>, expired_timestamp: u128) -> Cert {
    Cert::new(signature, expired_timestamp)
}

#[test]
fn create_cert_works() {
    let mut reg = Pallet::new();
    let signature = vec![0, 1, 2];
    let expired_timestamp = 321u128;
    let c = cert(signature.clone(), expired_timestamp);

    assert!(reg.create_cert(1, signature, expired_timestamp).is_ok());

    assert_eq!(
        reg.get_proof(&c),
        Some(ClaimRecord { owner: 1, claimed_at_height: reg.block_number() }),
    );
}

#[test]
fn create_cert_failed_when_cert_already_exists() {
    let mut reg = Pallet::new();
    let signature = vec![0, 1, 2];
    let expired_timestamp = 321u128;

    let _ = reg.create_cert(1, signature.clone(), expired_timestamp);

    assert_eq!(
        reg.create_cert(1, signature, expired_timestamp),
        Err(Error::ProofAlreadyClaimed),
    );
}

#[test]
fn second_create_leaves_state_as_after_first() {
    let mut reg = Pallet::new();
    reg.set_block_number(4);
    assert!(reg.create_cert(1, vec![9, 9], 7).is_ok());
    reg.set_block_number(5);

    assert_eq!(reg.create_cert(2, vec![9, 9], 7), Err(Error::ProofAlreadyClaimed));

    let c = cert(vec![9, 9], 7);
    assert_eq!(reg.get_proof(&c), Some(ClaimRecord { owner: 1, claimed_at_height: 4 }));
    assert_eq!(reg.event_count(), 1);
}

#[test]
fn revoke_works_and_erases_the_record() {
    let mut reg = Pallet::new();
    assert!(reg.create_cert(1, vec![0, 1, 2], 321).is_ok());

    assert_eq!(reg.revoke_cert(1, vec![0, 1, 2], 321), Ok(()));

    let c = cert(vec![0, 1, 2], 321);
    assert_eq!(reg.get_proof(&c), None);
}

#[test]
fn revoke_of_absent_cert_reports_no_such_proof() {
    let mut reg = Pallet::new();
    assert_eq!(reg.revoke_cert(1, vec![0, 1, 2], 321), Err(Error::NoSuchProof));
}

#[test]
fn revoke_by_non_owner_is_rejected_and_changes_nothing() {
    let mut reg = Pallet::new();
    reg.set_block_number(3);
    assert!(reg.create_cert(1, vec![0, 1, 2], 321).is_ok());

    assert_eq!(reg.revoke_cert(2, vec![0, 1, 2], 321), Err(Error::NotProofOwner));

    let c = cert(vec![0, 1, 2], 321);
    assert_eq!(reg.get_proof(&c), Some(ClaimRecord { owner: 1, claimed_at_height: 3 }));
    assert_eq!(reg.event_count(), 1);
}

#[test]
fn transfer_of_absent_cert_reports_no_such_proof() {
    let mut reg = Pallet::new();
    assert_eq!(reg.transfer_cert(1, 2, vec![0, 1, 2], 321), Err(Error::NoSuchProof));
}

#[test]
fn transfer_by_non_owner_is_rejected() {
    let mut reg = Pallet::new();
    assert!(reg.create_cert(1, vec![0, 1, 2], 321).is_ok());
    assert_eq!(reg.transfer_cert(2, 3, vec![0, 1, 2], 321), Err(Error::NotProofOwner));
}

#[test]
fn transfer_to_self_is_rejected_and_changes_nothing() {
    let mut reg = Pallet::new();
    reg.set_block_number(2);
    assert!(reg.create_cert(1, vec![0, 1, 2], 321).is_ok());

    assert_eq!(
        reg.transfer_cert(1, 1, vec![0, 1, 2], 321),
        Err(Error::SelfTransferUnacceptable),
    );

    let c = cert(vec![0, 1, 2], 321);
    assert_eq!(reg.get_proof(&c), Some(ClaimRecord { owner: 1, claimed_at_height: 2 }));
}

#[test]
fn transfer_to_self_of_absent_cert_reports_no_such_proof() {
    // The absence check comes first, so a self-transfer of an absent
    // certificate reports `NoSuchProof`, not `SelfTransferUnacceptable`.
    let mut reg = Pallet::new();
    assert_eq!(reg.transfer_cert(1, 1, vec![0, 1, 2], 321), Err(Error::NoSuchProof));
}

#[test]
fn transfer_updates_owner_and_height() {
    let mut reg = Pallet::new();
    reg.set_block_number(5);
    assert!(reg.create_cert(1, vec![0, 1, 2], 321).is_ok());
    reg.set_block_number(9);

    assert_eq!(reg.transfer_cert(1, 2, vec![0, 1, 2], 321), Ok(()));

    let c = cert(vec![0, 1, 2], 321);
    assert_eq!(reg.get_proof(&c), Some(ClaimRecord { owner: 2, claimed_at_height: 9 }));
}

#[test]
fn failing_calls_leave_unrelated_keys_untouched() {
    let mut reg = Pallet::new();
    reg.set_block_number(1);
    assert!(reg.create_cert(1, vec![0, 1, 2], 321).is_ok());
    assert!(reg.create_cert(2, vec![7], 8).is_ok());
    let events_before = reg.event_count();

    assert_eq!(reg.create_cert(3, vec![0, 1, 2], 321), Err(Error::ProofAlreadyClaimed));
    assert_eq!(reg.revoke_cert(3, vec![0, 1, 2], 321), Err(Error::NotProofOwner));
    assert_eq!(reg.transfer_cert(1, 1, vec![0, 1, 2], 321), Err(Error::SelfTransferUnacceptable));
    assert_eq!(reg.revoke_cert(3, vec![6], 8), Err(Error::NoSuchProof));

    let first = cert(vec![0, 1, 2], 321);
    let second = cert(vec![7], 8);
    assert_eq!(reg.get_proof(&first), Some(ClaimRecord { owner: 1, claimed_at_height: 1 }));
    assert_eq!(reg.get_proof(&second), Some(ClaimRecord { owner: 2, claimed_at_height: 1 }));
    assert_eq!(reg.event_count(), events_before);
}

#[test]
fn end_to_end_scenario() {
    let mut reg = Pallet::new();
    reg.set_block_number(11);

    assert_eq!(reg.create_cert(1, vec![0, 1, 2], 321), Ok(()));
    let c = cert(vec![0, 1, 2], 321);
    assert_eq!(reg.get_proof(&c), Some(ClaimRecord { owner: 1, claimed_at_height: 11 }));

    assert_eq!(reg.create_cert(1, vec![0, 1, 2], 321), Err(Error::ProofAlreadyClaimed));
    assert_eq!(reg.create_cert(5, vec![0, 1, 2], 321), Err(Error::ProofAlreadyClaimed));

    assert_eq!(reg.revoke_cert(2, vec![0, 1, 2], 321), Err(Error::NotProofOwner));

    assert_eq!(reg.revoke_cert(1, vec![0, 1, 2], 321), Ok(()));
    assert_eq!(reg.get_proof(&c), None);
}

#[test]
fn events_record_each_successful_operation() {
    let mut reg = Pallet::new();
    reg.set_block_number(6);
    assert!(reg.create_cert(1, vec![4, 5], 10).is_ok());
    assert!(reg.transfer_cert(1, 2, vec![4, 5], 10).is_ok());
    assert!(reg.revoke_cert(2, vec![4, 5], 10).is_ok());

    assert_eq!(reg.event_count(), 3);
    match reg.get_event(0) {
        Event::CertCreated(who, c) => {
            assert_eq!(*who, 1);
            assert_eq!(c.signature, vec![4, 5]);
            assert_eq!(c.expired_timestamp, 10);
        }
        _ => panic!("expected a creation event"),
    }
    match reg.get_event(1) {
        Event::CertTransfered(from, to, c) => {
            assert_eq!(*from, 1);
            assert_eq!(*to, 2);
            assert_eq!(c.signature, vec![4, 5]);
        }
        _ => panic!("expected a transfer event"),
    }
    match reg.get_event(2) {
        Event::CertRevoked(who, c) => {
            assert_eq!(*who, 2);
            assert_eq!(c.signature, vec![4, 5]);
        }
        _ => panic!("expected a revocation event"),
    }
}

#[test]
fn certificates_differ_when_either_field_differs() {
    let mut reg = Pallet::new();
    assert!(reg.create_cert(1, vec![0, 1, 2], 321).is_ok());

    // Same signature, different timestamp: a different key.
    assert_eq!(reg.create_cert(2, vec![0, 1, 2], 322), Ok(()));
    // Same timestamp, different signature: a different key.
    assert_eq!(reg.create_cert(3, vec![0, 1, 3], 321), Ok(()));

    assert_eq!(
        reg.get_proof(&cert(vec![0, 1, 2], 322)),
        Some(ClaimRecord { owner: 2, claimed_at_height: 0 }),
    );
    assert_eq!(
        reg.get_proof(&cert(vec![0, 1, 3], 321)),
        Some(ClaimRecord { owner: 3, claimed_at_height: 0 }),
    );
}

#[test]
fn empty_signature_is_a_valid_key() {
    let mut reg = Pallet::new();
    assert_eq!(reg.create_cert(1, vec![], 0), Ok(()));
    assert_eq!(reg.create_cert(2, vec![], 0), Err(Error::ProofAlreadyClaimed));
    assert_eq!(
        reg.get_proof(&cert(vec![], 0)),
        Some(ClaimRecord { owner: 1, claimed_at_height: 0 }),
    );
}

#[test]
fn key_eq_compares_both_fields() {
    let a = cert(vec![1, 2, 3], 9);
    let b = cert(vec![1, 2, 3], 9);
    let c = cert(vec![1, 2, 4], 9);
    let d = cert(vec![1, 2, 3], 10);
    let e = cert(vec![1, 2], 9);
    assert!(a.key_eq(&b));
    assert!(!a.key_eq(&c));
    assert!(!a.key_eq(&d));
    assert!(!a.key_eq(&e));
}

#[test]
fn duplicate_preserves_the_key() {
    let a = cert(vec![8, 8, 9], 77);
    let b = a.duplicate();
    assert!(a.key_eq(&b));
    assert_eq!(b.signature, vec![8, 8, 9]);
    assert_eq!(b.expired_timestamp, 77);
}

#[test]
fn block_number_follows_set_block_number() {
    let mut reg = Pallet::new();
    assert_eq!(reg.block_number(), 0);
    reg.set_block_number(42);
    assert_eq!(reg.block_number(), 42);
}
