//! A deterministic certificate claim registry.
//!
//! Accounts claim ownership of a certificate identity, revoke that claim,
//! or transfer it to another account. The registry guarantees global
//! uniqueness of active claims, checks every precondition before touching
//! state, and mutates all-or-nothing, so that replicas applying the same
//! ordered sequence of operations derive identical state.

pub mod cert;
pub mod laws;
pub mod registry;
pub mod store;

pub use cert::Cert;
pub use cert::CertKey;
pub use registry::AccountId;
pub use registry::BlockNumber;
pub use registry::ClaimRecord;
pub use registry::Error;
pub use registry::Event;
pub use registry::EventView;
pub use registry::Pallet;
pub use registry::RegistryView;
pub use store::ProofStore;
