//! The certificate identity key and its mathematical view.

use vstd::prelude::*;

verus! {

/// Identity key of a claim: an opaque signature blob together with a
/// numeric timestamp field. Two certificates denote the same claim iff
/// both fields are equal; neither field is interpreted any further
/// (in particular the timestamp is never compared against a clock).
pub struct Cert {
    pub signature: Vec<u8>,
    pub expired_timestamp: u128,
}

/// Mathematical identity of a certificate: the exact byte sequence of
/// the signature and the timestamp value.
pub struct CertKey {
    pub signature: Seq<u8>,
    pub expired_timestamp: u128,
}

impl View for Cert {
    type V = CertKey;

    open spec fn view(&self) -> CertKey {
        CertKey { signature: self.signature@, expired_timestamp: self.expired_timestamp }
    }
}

impl Cert {
    pub fn new(signature: Vec<u8>, expired_timestamp: u128) -> (c: Cert)
        ensures
            c@ == (CertKey { signature: signature@, expired_timestamp }),
    {
        Cert { signature, expired_timestamp }
    }

    /// Structural equality on the identity key: both fields must match
    /// exactly.
    pub fn key_eq(&self, other: &Cert) -> (r: bool)
        ensures
            r == (self@ == other@),
    {
        if self.expired_timestamp != other.expired_timestamp {
            return false;
        }
        if self.signature.len() != other.signature.len() {
            return false;
        }
        let mut i: usize = 0;
        while i < self.signature.len()
            invariant
                i <= self.signature.len(),
                self.signature.len() == other.signature.len(),
                forall|j: int| 0 <= j < i ==> self.signature@[j] == other.signature@[j],
            decreases self.signature.len() - i,
        {
            if self.signature[i] != other.signature[i] {
                return false;
            }
            i += 1;
        }
        proof {
            assert(self.signature@ =~= other.signature@);
        }
        true
    }

    /// A fresh certificate carrying the same identity key.
    pub fn duplicate(&self) -> (c: Cert)
        ensures
            c@ == self@,
    {
        let mut bytes: Vec<u8> = Vec::new();
        let mut i: usize = 0;
        while i < self.signature.len()
            invariant
                i <= self.signature.len(),
                bytes@ == self.signature@.subrange(0, i as int),
            decreases self.signature.len() - i,
        {
            bytes.push(self.signature[i]);
            proof {
                assert(bytes@ =~= self.signature@.subrange(0, i + 1));
            }
            i += 1;
        }
        proof {
            assert(bytes@ =~= self.signature@);
        }
        Cert { signature: bytes, expired_timestamp: self.expired_timestamp }
    }
}

} // verus!
