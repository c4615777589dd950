//! The registry: claim records, errors, events, and the three
//! state-transition operations.

use vstd::prelude::*;

use crate::cert::Cert;
use crate::cert::CertKey;
use crate::store::ProofStore;

verus! {

/// The authenticated identity of an account, as resolved by the
/// execution environment before an operation reaches the registry.
pub type AccountId = u64;

/// The height of a state transition: a monotonically non-decreasing
/// ordinal supplied by the execution environment.
pub type BlockNumber = u64;

/// The value recorded for a claimed certificate: who owns the claim and
/// at which height the record was last written (on create or transfer).
#[derive(Clone, Copy, PartialEq, Eq, Structural, Debug)]
pub struct ClaimRecord {
    pub owner: AccountId,
    pub claimed_at_height: BlockNumber,
}

/// Every way an operation can be rejected. Each error is detected before
/// any mutation, so a failed call leaves the registry untouched.
#[derive(Clone, Copy, PartialEq, Eq, Structural, Debug)]
pub enum Error {
    /// A create was attempted on a certificate already present.
    ProofAlreadyClaimed,
    /// A revoke or transfer was attempted on an absent certificate.
    NoSuchProof,
    /// A revoke or transfer was attempted by an account other than the
    /// recorded owner.
    NotProofOwner,
    /// A transfer was attempted whose receiver equals the caller.
    SelfTransferUnacceptable,
}

/// A domain event, emitted exactly once per successful operation.
pub enum Event {
    /// A claim was created. Fields: who, claim.
    CertCreated(AccountId, Cert),
    /// A claim was revoked by its owner. Fields: who, claim.
    CertRevoked(AccountId, Cert),
    /// A claim changed hands. Fields: sender, receiver, claim.
    CertTransfered(AccountId, AccountId, Cert),
}

/// Mathematical view of an emitted event.
pub enum EventView {
    CertCreated(AccountId, CertKey),
    CertRevoked(AccountId, CertKey),
    CertTransfered(AccountId, AccountId, CertKey),
}

impl View for Event {
    type V = EventView;

    open spec fn view(&self) -> EventView {
        match self {
            Event::CertCreated(who, cert) => EventView::CertCreated(*who, cert@),
            Event::CertRevoked(who, cert) => EventView::CertRevoked(*who, cert@),
            Event::CertTransfered(who, to, cert) => EventView::CertTransfered(*who, *to, cert@),
        }
    }
}

/// The views of a sequence of emitted events, oldest first.
pub open spec fn events_view(events: Seq<Event>) -> Seq<EventView> {
    events.map_values(|e: Event| e@)
}

proof fn lemma_events_view_push(events: Seq<Event>, e: Event)
    ensures
        events_view(events.push(e)) == events_view(events).push(e@),
{
    assert(events_view(events.push(e)) =~= events_view(events).push(e@));
}

/// Mathematical view of the whole registry: the claim mapping, the
/// event log, and the current height.
pub struct RegistryView {
    pub proofs: Map<CertKey, ClaimRecord>,
    pub events: Seq<EventView>,
    pub height: BlockNumber,
}

/// What `create` does to the claim mapping: the new mapping and the
/// result. A certificate already present is rejected with
/// `ProofAlreadyClaimed`; otherwise the caller claims it at the given
/// height.
pub open spec fn create_outcome(
    proofs: Map<CertKey, ClaimRecord>,
    caller: AccountId,
    cert: CertKey,
    height: BlockNumber,
) -> (Map<CertKey, ClaimRecord>, Result<(), Error>) {
    if proofs.dom().contains(cert) {
        (proofs, Err(Error::ProofAlreadyClaimed))
    } else {
        (proofs.insert(cert, ClaimRecord { owner: caller, claimed_at_height: height }), Ok(()))
    }
}

/// What `revoke` does to the claim mapping. An absent certificate is
/// rejected with `NoSuchProof`, one owned by another account with
/// `NotProofOwner`, in that order; otherwise the claim is erased.
pub open spec fn revoke_outcome(
    proofs: Map<CertKey, ClaimRecord>,
    caller: AccountId,
    cert: CertKey,
) -> (Map<CertKey, ClaimRecord>, Result<(), Error>) {
    if !proofs.dom().contains(cert) {
        (proofs, Err(Error::NoSuchProof))
    } else if proofs[cert].owner != caller {
        (proofs, Err(Error::NotProofOwner))
    } else {
        (proofs.remove(cert), Ok(()))
    }
}

/// What `transfer` does to the claim mapping. An absent certificate is
/// rejected with `NoSuchProof`, one owned by another account with
/// `NotProofOwner`, a receiver equal to the caller with
/// `SelfTransferUnacceptable`, in that order; otherwise the record is
/// overwritten with the receiver and the given height.
pub open spec fn transfer_outcome(
    proofs: Map<CertKey, ClaimRecord>,
    caller: AccountId,
    receiver: AccountId,
    cert: CertKey,
    height: BlockNumber,
) -> (Map<CertKey, ClaimRecord>, Result<(), Error>) {
    if !proofs.dom().contains(cert) {
        (proofs, Err(Error::NoSuchProof))
    } else if proofs[cert].owner != caller {
        (proofs, Err(Error::NotProofOwner))
    } else if receiver == caller {
        (proofs, Err(Error::SelfTransferUnacceptable))
    } else {
        (proofs.insert(cert, ClaimRecord { owner: receiver, claimed_at_height: height }), Ok(()))
    }
}

/// The registry: the claim mapping, the log of emitted events, and the
/// current height as last set by the execution environment.
pub struct Pallet {
    proofs: ProofStore,
    events: Vec<Event>,
    height: BlockNumber,
}

impl View for Pallet {
    type V = RegistryView;

    closed spec fn view(&self) -> RegistryView {
        RegistryView {
            proofs: self.proofs@,
            events: events_view(self.events@),
            height: self.height,
        }
    }
}

impl Pallet {
    /// Well-formedness: the backing store holds each key at most once.
    pub closed spec fn wf(&self) -> bool {
        self.proofs.wf()
    }

    /// An empty registry at height zero.
    pub fn new() -> (p: Pallet)
        ensures
            p.wf(),
            p@ == (RegistryView {
                proofs: Map::<CertKey, ClaimRecord>::empty(),
                events: Seq::<EventView>::empty(),
                height: 0,
            }),
    {
        let p = Pallet { proofs: ProofStore::new(), events: Vec::new(), height: 0 };
        proof {
            assert(events_view(p.events@) =~= Seq::<EventView>::empty());
        }
        p
    }

    /// The current height.
    pub fn block_number(&self) -> (h: BlockNumber)
        ensures
            h == self@.height,
    {
        self.height
    }

    /// Sets the current height; the execution environment supplies a
    /// monotonically non-decreasing value.
    pub fn set_block_number(&mut self, height: BlockNumber)
        requires
            old(self).wf(),
        ensures
            final(self).wf(),
            final(self)@ == (RegistryView { height, ..old(self)@ }),
    {
        self.height = height;
    }

    /// The record held for the certificate, or nothing.
    pub fn get_proof(&self, cert: &Cert) -> (r: Option<ClaimRecord>)
        requires
            self.wf(),
        ensures
            self@.proofs.dom().contains(cert@) ==> r == Some(self@.proofs[cert@]),
            !self@.proofs.dom().contains(cert@) ==> r is None,
    {
        self.proofs.get(cert)
    }

    /// How many events have been emitted.
    pub fn event_count(&self) -> (n: usize)
        ensures
            n == self@.events.len(),
    {
        self.events.len()
    }

    /// The event at the given position, oldest first.
    pub fn get_event(&self, i: usize) -> (e: &Event)
        requires
            i < self@.events.len(),
        ensures
            e@ == self@.events[i as int],
    {
        &self.events[i]
    }

    /// Claims the certificate built from the signature bytes and the
    /// timestamp for the caller at the current height. Fails with
    /// `ProofAlreadyClaimed` if the certificate is already a key, and
    /// then changes nothing; on success emits `CertCreated`.
    pub fn create_cert(
        &mut self,
        origin: AccountId,
        signature: Vec<u8>,
        expired_timestamp: u128,
    ) -> (r: Result<(), Error>)
        requires
            old(self).wf(),
        ensures
            final(self).wf(),
            ({
                let cert = CertKey { signature: signature@, expired_timestamp };
                let step = create_outcome(old(self)@.proofs, origin, cert, old(self)@.height);
                &&& r == step.1
                &&& final(self)@.proofs == step.0
                &&& final(self)@.height == old(self)@.height
                &&& final(self)@.events == (if r is Ok {
                    old(self)@.events.push(EventView::CertCreated(origin, cert))
                } else {
                    old(self)@.events
                })
            }),
    {
        let cert = Cert::new(signature, expired_timestamp);
        if self.proofs.contains_key(&cert) {
            return Err(Error::ProofAlreadyClaimed);
        }
        let record = ClaimRecord { owner: origin, claimed_at_height: self.height };
        let cert_for_event = cert.duplicate();
        self.proofs.insert(cert, record);
        proof {
            lemma_events_view_push(self.events@, Event::CertCreated(origin, cert_for_event));
        }
        self.events.push(Event::CertCreated(origin, cert_for_event));
        Ok(())
    }

    /// Revokes the caller's claim on the certificate built from the
    /// signature bytes and the timestamp. Fails with `NoSuchProof` if
    /// the certificate is not a key, with `NotProofOwner` if the caller
    /// is not the recorded owner, in that order, and then changes
    /// nothing; on success erases the record and emits `CertRevoked`.
    pub fn revoke_cert(
        &mut self,
        origin: AccountId,
        signature: Vec<u8>,
        expired_timestamp: u128,
    ) -> (r: Result<(), Error>)
        requires
            old(self).wf(),
        ensures
            final(self).wf(),
            ({
                let cert = CertKey { signature: signature@, expired_timestamp };
                let step = revoke_outcome(old(self)@.proofs, origin, cert);
                &&& r == step.1
                &&& final(self)@.proofs == step.0
                &&& final(self)@.height == old(self)@.height
                &&& final(self)@.events == (if r is Ok {
                    old(self)@.events.push(EventView::CertRevoked(origin, cert))
                } else {
                    old(self)@.events
                })
            }),
    {
        let cert = Cert::new(signature, expired_timestamp);
        let record = match self.proofs.get(&cert) {
            Some(record) => record,
            None => {
                return Err(Error::NoSuchProof);
            },
        };
        if record.owner != origin {
            return Err(Error::NotProofOwner);
        }
        self.proofs.remove(&cert);
        proof {
            lemma_events_view_push(self.events@, Event::CertRevoked(origin, cert));
        }
        self.events.push(Event::CertRevoked(origin, cert));
        Ok(())
    }

    /// Transfers the caller's claim on the certificate built from the
    /// signature bytes and the timestamp to the receiver, re-stamping
    /// the record with the current height. Fails with `NoSuchProof` if
    /// the certificate is not a key, with `NotProofOwner` if the caller
    /// is not the recorded owner, with `SelfTransferUnacceptable` if the
    /// receiver equals the caller, in that order, and then changes
    /// nothing; on success emits `CertTransfered`.
    pub fn transfer_cert(
        &mut self,
        origin: AccountId,
        receiver: AccountId,
        signature: Vec<u8>,
        expired_timestamp: u128,
    ) -> (r: Result<(), Error>)
        requires
            old(self).wf(),
        ensures
            final(self).wf(),
            ({
                let cert = CertKey { signature: signature@, expired_timestamp };
                let step = transfer_outcome(
                    old(self)@.proofs,
                    origin,
                    receiver,
                    cert,
                    old(self)@.height,
                );
                &&& r == step.1
                &&& final(self)@.proofs == step.0
                &&& final(self)@.height == old(self)@.height
                &&& final(self)@.events == (if r is Ok {
                    old(self)@.events.push(EventView::CertTransfered(origin, receiver, cert))
                } else {
                    old(self)@.events
                })
            }),
    {
        let cert = Cert::new(signature, expired_timestamp);
        let record = match self.proofs.get(&cert) {
            Some(record) => record,
            None => {
                return Err(Error::NoSuchProof);
            },
        };
        if record.owner != origin {
            return Err(Error::NotProofOwner);
        }
        if receiver == origin {
            return Err(Error::SelfTransferUnacceptable);
        }
        let new_record = ClaimRecord { owner: receiver, claimed_at_height: self.height };
        let cert_for_event = cert.duplicate();
        self.proofs.insert(cert, new_record);
        proof {
            lemma_events_view_push(
                self.events@,
                Event::CertTransfered(origin, receiver, cert_for_event),
            );
        }
        self.events.push(Event::CertTransfered(origin, receiver, cert_for_event));
        Ok(())
    }
}

} // verus!
