//! Core of a shielded-transaction construction protocol: notes with hiding
//! commitments and position-bound nullifiers, the encrypted-note transport
//! format, the Merkle tree hash-combination rule, multi-asset identifier
//! derivation, and the transaction builder with its per-asset balance
//! invariant.
//!
//! Zero-knowledge proving is treated as an outside capability: a proof is an
//! opaque fixed-length blob, supplied through the [`transaction::Prover`]
//! trait or handed in directly.

pub mod assets;
pub mod crypto;
pub mod errors;
pub mod keys;
pub mod merkle_note;
pub mod note;
pub mod serializing;
pub mod transaction;
pub mod util;
pub mod witness;

pub use errors::{IronfishError, IronfishErrorKind};
