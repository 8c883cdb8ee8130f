//! Wallet discovery and vault security for a watch-only Bitcoin portfolio
//! tracker: extended public key handling, child address derivation, gap-limit
//! scanning, transaction aggregation, and the passphrase / recovery phrase key
//! hierarchy that protects the local store.
use vstd::prelude::*;

pub mod encoding;
pub mod keyformat;
pub mod deriver;
pub mod scanner;
pub mod transactions;
pub mod text;
pub mod crypto;
pub mod vault;

verus! {

/// The failure kinds reported by the library.
#[derive(Debug, Clone, PartialEq, Eq)]
pub enum ErrorKind {
    /// A malformed or unsupported extended key string, with the reason.
    InvalidKey(String),
    /// A derivation path or index outside the non-hardened space.
    DerivationFailed,
    /// A network or parse failure from the chain indexer, with the reason.
    RemoteFailure(String),
    /// A wrong passphrase or recovery phrase, or corrupted wrap material.
    InvalidCredential,
    /// The store could not be opened, exported or replaced, with the reason.
    StoreFailure(String),
    /// The secure random source failed.
    RandomSourceFailure,
}

} // verus!
