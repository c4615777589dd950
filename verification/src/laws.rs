//! Laws of the registry, proved once and for all over the same spec
//! functions that the operations' contracts use.
//!
//! Uniqueness of active claims needs no law of its own: the claim state
//! is a `Map`, which binds each key at most once, and the backing
//! store's well-formedness invariant (pairwise distinct entry keys) is
//! established by the constructor and preserved by every operation.

use vstd::prelude::*;

use crate::cert::CertKey;
use crate::registry::AccountId;
use crate::registry::BlockNumber;
use crate::registry::ClaimRecord;
use crate::registry::Error;
use crate::registry::create_outcome;
use crate::registry::revoke_outcome;
use crate::registry::transfer_outcome;

verus! {

/// Uniqueness: once a create has claimed a certificate, a second create
/// of the same certificate is rejected with `ProofAlreadyClaimed` and
/// leaves the mapping exactly as the first create left it, whoever
/// makes the second call and at whatever height.
pub proof fn lemma_second_create_rejected(
    proofs: Map<CertKey, ClaimRecord>,
    first_caller: AccountId,
    second_caller: AccountId,
    cert: CertKey,
    h1: BlockNumber,
    h2: BlockNumber,
)
    requires
        create_outcome(proofs, first_caller, cert, h1).1 is Ok,
    ensures
        ({
            let after_first = create_outcome(proofs, first_caller, cert, h1).0;
            create_outcome(after_first, second_caller, cert, h2) == (
                after_first,
                Err::<(), Error>(Error::ProofAlreadyClaimed),
            )
        }),
{
}

/// Ownership gate: a revoke by any account other than the recorded
/// owner is rejected with `NotProofOwner` and leaves the whole mapping,
/// the record for the certificate included, unchanged.
pub proof fn lemma_revoke_by_non_owner_rejected(
    proofs: Map<CertKey, ClaimRecord>,
    caller: AccountId,
    cert: CertKey,
)
    requires
        proofs.dom().contains(cert),
        proofs[cert].owner != caller,
    ensures
        revoke_outcome(proofs, caller, cert) == (proofs, Err::<(), Error>(Error::NotProofOwner)),
{
}

/// Self-transfer rejection: a transfer whose receiver equals the caller
/// is rejected with `SelfTransferUnacceptable` and changes nothing,
/// whenever the caller owns the claim. (An absent certificate is
/// rejected earlier, with `NoSuchProof`, and a claim owned by another
/// account with `NotProofOwner`: the preconditions are checked in that
/// order.)
pub proof fn lemma_self_transfer_rejected(
    proofs: Map<CertKey, ClaimRecord>,
    caller: AccountId,
    cert: CertKey,
    height: BlockNumber,
)
    requires
        proofs.dom().contains(cert),
        proofs[cert].owner == caller,
    ensures
        transfer_outcome(proofs, caller, caller, cert, height) == (
            proofs,
            Err::<(), Error>(Error::SelfTransferUnacceptable),
        ),
{
}

/// Atomicity on failure: whenever an operation reports an error, it
/// hands the claim mapping back unchanged, unrelated keys included.
pub proof fn lemma_failed_operation_preserves_state(
    proofs: Map<CertKey, ClaimRecord>,
    caller: AccountId,
    receiver: AccountId,
    cert: CertKey,
    height: BlockNumber,
)
    ensures
        create_outcome(proofs, caller, cert, height).1 is Err ==> create_outcome(
            proofs,
            caller,
            cert,
            height,
        ).0 == proofs,
        revoke_outcome(proofs, caller, cert).1 is Err ==> revoke_outcome(
            proofs,
            caller,
            cert,
        ).0 == proofs,
        transfer_outcome(proofs, caller, receiver, cert, height).1 is Err ==> transfer_outcome(
            proofs,
            caller,
            receiver,
            cert,
            height,
        ).0 == proofs,
{
}

/// Transfer updates height and owner: if the caller owns the claim,
/// recorded at some earlier height, then a transfer to another account
/// at a later height succeeds, the record becomes exactly the receiver
/// at the new height, and every other key keeps its record.
pub proof fn lemma_transfer_updates_owner_and_height(
    proofs: Map<CertKey, ClaimRecord>,
    caller: AccountId,
    receiver: AccountId,
    cert: CertKey,
    h1: BlockNumber,
    h2: BlockNumber,
)
    requires
        proofs.dom().contains(cert),
        proofs[cert] == (ClaimRecord { owner: caller, claimed_at_height: h1 }),
        receiver != caller,
        h1 < h2,
    ensures
        ({
            let step = transfer_outcome(proofs, caller, receiver, cert, h2);
            &&& step.1 == Ok::<(), Error>(())
            &&& step.0.dom() == proofs.dom()
            &&& step.0[cert] == (ClaimRecord { owner: receiver, claimed_at_height: h2 })
            &&& forall|k: CertKey|
                k != cert && proofs.dom().contains(k) ==> #[trigger] step.0[k] == proofs[k]
        }),
{
    assert(transfer_outcome(proofs, caller, receiver, cert, h2).0.dom() =~= proofs.dom());
}

} // verus!
