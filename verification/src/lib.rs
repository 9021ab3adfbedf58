//! The election bootstrap pipeline of a private, ballot-style voting
//! system: validation of a human-supplied template, deterministic
//! derivation of one unlinkable receiving address per candidate from a
//! fresh recovery phrase, progress mapping for the ledger-synchronization
//! stage, installation of the two commitment roots, and the canonical
//! serialized form of the finished election record.
//!
//! The pipeline is all-or-nothing: either a whole election bundle is
//! produced, or an error and nothing else. The ledger itself — the store,
//! the network download, the root computation — is an outside collaborator
//! driven by the caller through [`session::BootstrapSession`].

pub mod bootstrap;
pub mod codec;
pub mod election;
pub mod errors;
pub mod keys;
pub mod progress;
pub mod recovery;
pub mod session;
pub mod text;
