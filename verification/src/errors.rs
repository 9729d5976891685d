//! Typed errors for the whole crate.
//!
//! Every fallible operation returns an [`IronfishError`]: a kind plus an
//! optional chained underlying cause. Callers match on the kind only.

use vstd::prelude::*;

verus! {

/// The failure categories that operations in this crate can report.
#[derive(Clone, Copy, Debug, PartialEq, Eq, Structural)]
pub enum IronfishErrorKind {
    BellpersonSynthesis,
    CryptoBox,
    IllegalValue,
    InconsistentWitness,
    InvalidAssetIdentifier,
    InvalidAuthorizingKey,
    InvalidBalance,
    InvalidCommitment,
    InvalidData,
    InvalidDecryptionKey,
    InvalidDiversificationPoint,
    InvalidEntropy,
    InvalidLanguageEncoding,
    InvalidMinersFeeTransaction,
    InvalidMintProof,
    InvalidMintSignature,
    InvalidMnemonicString,
    InvalidNonceLength,
    InvalidNullifierDerivingKey,
    InvalidOutputProof,
    InvalidPaymentAddress,
    InvalidPublicAddress,
    InvalidSignature,
    InvalidSigningKey,
    InvalidSpendProof,
    InvalidSpendSignature,
    InvalidTransaction,
    InvalidTransactionVersion,
    InvalidViewingKey,
    InvalidWord,
    Io,
    IsSmallOrder,
    RandomnessError,
    TryFromInt,
    Utf8,
}

/// An error kind together with an optional owned underlying cause.
#[derive(Debug)]
pub struct IronfishError {
    pub kind: IronfishErrorKind,
    pub source: Option<Box<IronfishError>>,
}

impl IronfishError {
    /// Builds an error of the given kind with no underlying cause.
    pub fn new(kind: IronfishErrorKind) -> (r: Self)
        ensures
            r.kind == kind,
            r.source is None,
    {
        Self { kind, source: None }
    }

    /// Builds an error of the given kind that chains the error it grew from.
    pub fn new_with_source(kind: IronfishErrorKind, source: IronfishError) -> (r: Self)
        ensures
            r.kind == kind,
            r.source == Some(Box::new(source)),
    {
        Self { kind, source: Some(Box::new(source)) }
    }
}

} // verus!
