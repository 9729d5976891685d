//! Spending keys and everything derived from them: view keys, the
//! nullifier-deriving key, and public addresses.
//!
//! All derivations are personalized BLAKE2s hashes of the 32-byte spending
//! key; the incoming view key is reduced to a scalar so that a public
//! address is its public Diffie-Hellman point.

use vstd::prelude::*;
use vstd::string::StringSliceAdditionalSpecFns;

use crate::crypto::{
    blake2s, blake2s_of, derive_public, point_check, point_valid, pub_key_of, random_bytes_32,
    scalar_canonical, scalar_from_wide, scalar_of, scalar_repr_valid,
};
use crate::errors::{IronfishError, IronfishErrorKind};
use crate::serializing::{bytes_to_hex, hex_to_bytes, is_hex_digit, spec_from_hex, spec_to_hex};

verus! {

/// Width in bytes of a public address.
pub const PUBLIC_ADDRESS_SIZE: usize = 32;

/// Personalization prefix for every key-derivation hash: the 7 ASCII bytes
/// of "ifshtag" followed by one domain byte.
pub open spec fn spec_tag(t: u8) -> Seq<u8> {
    seq![105u8, 102u8, 115u8, 104u8, 116u8, 97u8, 103u8, t]
}

/// Builds the 8-byte personalization for domain `t`.
pub fn tag(t: u8) -> (r: Vec<u8>)
    ensures
        r@ == spec_tag(t),
{
    let mut v: Vec<u8> = Vec::new();
    v.push(105);
    v.push(102);
    v.push(115);
    v.push(104);
    v.push(116);
    v.push(97);
    v.push(103);
    v.push(t);
    proof {
        assert(v@ =~= spec_tag(t));
    }
    v
}

/// Domain byte of the first half of the incoming-view-key derivation.
pub const TAG_IVK_A: u8 = 0;

/// Domain byte of the second half of the incoming-view-key derivation.
pub const TAG_IVK_B: u8 = 1;

/// Domain byte of the outgoing-view-key derivation.
pub const TAG_OVK: u8 = 2;

/// Domain byte of the authorizing-key derivation.
pub const TAG_AK: u8 = 3;

/// Domain byte of the nullifier-deriving-key derivation.
pub const TAG_NK: u8 = 4;

/// Domain byte of the note-commitment hash.
pub const TAG_COMMITMENT: u8 = 5;

/// Domain byte of the nullifier hash.
pub const TAG_NULLIFIER: u8 = 6;

/// Domain byte of the note-encryption-key derivation.
pub const TAG_ENCRYPTION_KEY: u8 = 7;

/// Domain byte of the encryption keystream blocks.
pub const TAG_KEYSTREAM: u8 = 8;

/// Domain byte of the ciphertext authentication tag.
pub const TAG_MAC: u8 = 9;

/// Domain byte of the outgoing cipher key.
pub const TAG_OCK: u8 = 10;

/// Domain byte of the value-commitment hash.
pub const TAG_VALUE_COMMITMENT: u8 = 11;

/// Domain byte of the value-commitment randomness derivation.
pub const TAG_VC_RANDOMNESS: u8 = 12;

/// Domain byte of the transaction signature hash.
pub const TAG_SIGNATURE_HASH: u8 = 13;

/// Domain byte of the first binding-signature half.
pub const TAG_SIGNATURE_A: u8 = 14;

/// Domain byte of the second binding-signature half.
pub const TAG_SIGNATURE_B: u8 = 15;

/// Domain byte of the randomized-public-key derivation.
pub const TAG_RANDOMIZED_KEY: u8 = 16;

/// Domain byte of the first half of the spend-authorizing-key derivation.
pub const TAG_ASK_A: u8 = 17;

/// Domain byte of the second half of the spend-authorizing-key derivation.
pub const TAG_ASK_B: u8 = 18;

/// The incoming view key scalar derived from a spending key.
pub open spec fn spec_incoming_view_key(sk: Seq<u8>) -> Seq<u8> {
    scalar_of(blake2s_of(spec_tag(TAG_IVK_A), sk) + blake2s_of(spec_tag(TAG_IVK_B), sk))
}

/// The outgoing view key bytes derived from a spending key.
pub open spec fn spec_outgoing_view_key(sk: Seq<u8>) -> Seq<u8> {
    blake2s_of(spec_tag(TAG_OVK), sk)
}

/// The authorizing key bytes derived from a spending key.
pub open spec fn spec_authorizing_key(sk: Seq<u8>) -> Seq<u8> {
    blake2s_of(spec_tag(TAG_AK), sk)
}

/// The nullifier-deriving key bytes derived from a spending key.
pub open spec fn spec_nullifier_deriving_key(sk: Seq<u8>) -> Seq<u8> {
    blake2s_of(spec_tag(TAG_NK), sk)
}

/// The spend-authorizing scalar derived from a spending key.
pub open spec fn spec_spend_authorizing_key(sk: Seq<u8>) -> Seq<u8> {
    scalar_of(blake2s_of(spec_tag(TAG_ASK_A), sk) + blake2s_of(spec_tag(TAG_ASK_B), sk))
}

/// The public address belonging to a spending key.
pub open spec fn spec_public_address(sk: Seq<u8>) -> Seq<u8> {
    pub_key_of(spec_incoming_view_key(sk))
}

/// A shielded payment address: the public point of an incoming view key.
#[derive(Debug, Clone)]
pub struct PublicAddress {
    pub bytes: Vec<u8>,
}

impl PublicAddress {
    /// A well-formed address is 32 bytes that decode to a point of the
    /// prime-order group.
    pub open spec fn valid(&self) -> bool {
        self.bytes@.len() == 32 && point_valid(self.bytes@)
    }

    /// Accepts exactly 32 bytes that decode to a group point.
    pub fn new(bytes: Vec<u8>) -> (r: Result<PublicAddress, IronfishError>)
        ensures
            r is Ok <==> bytes@.len() == 32 && point_valid(bytes@),
            r matches Ok(a) ==> a.bytes@ == bytes@ && a.valid(),
            r matches Err(e) ==> e.kind == IronfishErrorKind::InvalidPublicAddress,
    {
        if bytes.len() != 32 {
            return Err(IronfishError::new(IronfishErrorKind::InvalidPublicAddress));
        }
        if !point_check(bytes.as_slice()) {
            return Err(IronfishError::new(IronfishErrorKind::InvalidPublicAddress));
        }
        Ok(PublicAddress { bytes })
    }

    /// Parses an address from 64 hexadecimal digits.
    pub fn from_hex(hex: &str) -> (r: Result<PublicAddress, IronfishError>)
        ensures
            r is Ok <==> (hex.spec_bytes().len() == 64 && (forall|i: int|
                0 <= i < 64 ==> is_hex_digit(#[trigger] hex.spec_bytes()[i])) && point_valid(
                spec_from_hex(hex.spec_bytes(), 32),
            )),
            r matches Ok(a) ==> a.bytes@ == spec_from_hex(hex.spec_bytes(), 32) && a.valid(),
            r matches Err(e) ==> e.kind == IronfishErrorKind::InvalidPublicAddress,
    {
        match hex_to_bytes(hex, 32) {
            Ok(bytes) => PublicAddress::new(bytes),
            Err(_) => Err(IronfishError::new(IronfishErrorKind::InvalidPublicAddress)),
        }
    }

    /// The address as 64 hexadecimal digits.
    pub fn hex_public_address(&self) -> (r: String)
        requires
            self.bytes@.len() == 32,
        ensures
            r@ == spec_to_hex(self.bytes@),
    {
        bytes_to_hex(self.bytes.as_slice())
    }
}

/// The key that lets a wallet detect and decrypt notes addressed to it.
#[derive(Debug, Clone)]
pub struct IncomingViewKey {
    pub key: Vec<u8>,
}

impl IncomingViewKey {
    /// A well-formed incoming view key is a canonical 32-byte scalar.
    pub open spec fn valid(&self) -> bool {
        self.key@.len() == 32 && scalar_canonical(self.key@)
    }

    /// Parses the key from 64 hexadecimal digits of a canonical scalar.
    pub fn from_hex(hex: &str) -> (r: Result<IncomingViewKey, IronfishError>)
        ensures
            r is Ok <==> (hex.spec_bytes().len() == 64 && (forall|i: int|
                0 <= i < 64 ==> is_hex_digit(#[trigger] hex.spec_bytes()[i])) && scalar_canonical(
                spec_from_hex(hex.spec_bytes(), 32),
            )),
            r matches Ok(k) ==> k.key@ == spec_from_hex(hex.spec_bytes(), 32) && k.valid(),
            r matches Err(e) ==> e.kind == IronfishErrorKind::InvalidViewingKey,
    {
        match hex_to_bytes(hex, 32) {
            Ok(key) => {
                if scalar_repr_valid(key.as_slice()) {
                    Ok(IncomingViewKey { key })
                } else {
                    Err(IronfishError::new(IronfishErrorKind::InvalidViewingKey))
                }
            },
            Err(_) => Err(IronfishError::new(IronfishErrorKind::InvalidViewingKey)),
        }
    }

    /// The key as 64 hexadecimal digits.
    pub fn hex_key(&self) -> (r: String)
        requires
            self.key@.len() == 32,
        ensures
            r@ == spec_to_hex(self.key@),
    {
        bytes_to_hex(self.key.as_slice())
    }

    /// The public address that this view key watches.
    pub fn public_address(&self) -> (r: PublicAddress)
        requires
            self.valid(),
        ensures
            r.bytes@ == pub_key_of(self.key@),
            r.valid(),
    {
        match derive_public(self.key.as_slice()) {
            Some(bytes) => PublicAddress { bytes },
            None => {
                proof {
                    assert(false);
                }
                PublicAddress { bytes: Vec::new() }
            },
        }
    }
}

/// The key that lets a wallet recognize notes it sent to others.
#[derive(Debug, Clone)]
pub struct OutgoingViewKey {
    pub key: Vec<u8>,
}

impl OutgoingViewKey {
    /// A well-formed outgoing view key is 32 bytes.
    pub open spec fn valid(&self) -> bool {
        self.key@.len() == 32
    }

    /// Parses the key from 64 hexadecimal digits.
    pub fn from_hex(hex: &str) -> (r: Result<OutgoingViewKey, IronfishError>)
        ensures
            r is Ok <==> (hex.spec_bytes().len() == 64 && (forall|i: int|
                0 <= i < 64 ==> is_hex_digit(#[trigger] hex.spec_bytes()[i]))),
            r matches Ok(k) ==> k.key@ == spec_from_hex(hex.spec_bytes(), 32) && k.valid(),
            r matches Err(e) ==> e.kind == IronfishErrorKind::InvalidViewingKey,
    {
        match hex_to_bytes(hex, 32) {
            Ok(key) => Ok(OutgoingViewKey { key }),
            Err(_) => Err(IronfishError::new(IronfishErrorKind::InvalidViewingKey)),
        }
    }

    /// The key as 64 hexadecimal digits.
    pub fn hex_key(&self) -> (r: String)
        requires
            self.key@.len() == 32,
        ensures
            r@ == spec_to_hex(self.key@),
    {
        bytes_to_hex(self.key.as_slice())
    }
}

/// The authorizing and nullifier-deriving key pair: enough to compute
/// nullifiers, never enough to spend.
#[derive(Debug, Clone)]
pub struct ViewKey {
    pub authorizing_key: Vec<u8>,
    pub nullifier_deriving_key: Vec<u8>,
}

impl ViewKey {
    /// A well-formed view key holds two 32-byte halves.
    pub open spec fn valid(&self) -> bool {
        self.authorizing_key@.len() == 32 && self.nullifier_deriving_key@.len() == 32
    }

    /// Parses the key from 128 hexadecimal digits: the authorizing key
    /// followed by the nullifier-deriving key.
    pub fn from_hex(hex: &str) -> (r: Result<ViewKey, IronfishError>)
        ensures
            r is Ok <==> (hex.spec_bytes().len() == 128 && (forall|i: int|
                0 <= i < 128 ==> is_hex_digit(#[trigger] hex.spec_bytes()[i]))),
            r matches Ok(k) ==> k.authorizing_key@ + k.nullifier_deriving_key@ == spec_from_hex(
                hex.spec_bytes(),
                64,
            ) && k.valid(),
            r matches Err(e) ==> e.kind == IronfishErrorKind::InvalidViewingKey,
    {
        match hex_to_bytes(hex, 64) {
            Ok(bytes) => {
                let mut authorizing_key: Vec<u8> = Vec::new();
                let mut nullifier_deriving_key: Vec<u8> = Vec::new();
                let mut i: usize = 0;
                while i < 32
                    invariant
                        i <= 32,
                        bytes@.len() == 64,
                        authorizing_key@ == bytes@.subrange(0, i as int),
                    decreases 32 - i,
                {
                    authorizing_key.push(bytes[i]);
                    i = i + 1;
                }
                while i < 64
                    invariant
                        32 <= i <= 64,
                        bytes@.len() == 64,
                        authorizing_key@ == bytes@.subrange(0, 32),
                        nullifier_deriving_key@ == bytes@.subrange(32, i as int),
                    decreases 64 - i,
                {
                    nullifier_deriving_key.push(bytes[i]);
                    i = i + 1;
                }
                proof {
                    assert(authorizing_key@ + nullifier_deriving_key@ =~= bytes@);
                }
                Ok(ViewKey { authorizing_key, nullifier_deriving_key })
            },
            Err(_) => Err(IronfishError::new(IronfishErrorKind::InvalidViewingKey)),
        }
    }

    /// The key as 128 hexadecimal digits.
    pub fn hex_key(&self) -> (r: String)
        requires
            self.valid(),
        ensures
            r@ == spec_to_hex(self.authorizing_key@ + self.nullifier_deriving_key@),
    {
        let mut joined = self.authorizing_key.clone();
        let mut nk = self.nullifier_deriving_key.clone();
        joined.append(&mut nk);
        bytes_to_hex(joined.as_slice())
    }
}

/// The master key of an account. Every other key is a deterministic
/// derivation of its 32 bytes.
#[derive(Debug, Clone)]
pub struct SaplingKey {
    pub spending_key: Vec<u8>,
}

impl SaplingKey {
    /// A well-formed spending key is 32 bytes.
    pub open spec fn valid(&self) -> bool {
        self.spending_key@.len() == 32
    }

    /// Draws a fresh random spending key.
    pub fn generate_key() -> (r: SaplingKey)
        ensures
            r.valid(),
    {
        SaplingKey { spending_key: random_bytes_32() }
    }

    /// Parses a spending key from 64 hexadecimal digits.
    pub fn from_hex(hex: &str) -> (r: Result<SaplingKey, IronfishError>)
        ensures
            r is Ok <==> (hex.spec_bytes().len() == 64 && (forall|i: int|
                0 <= i < 64 ==> is_hex_digit(#[trigger] hex.spec_bytes()[i]))),
            r matches Ok(k) ==> k.spending_key@ == spec_from_hex(hex.spec_bytes(), 32)
                && k.valid(),
            r matches Err(e) ==> e.kind == IronfishErrorKind::InvalidSigningKey,
    {
        match hex_to_bytes(hex, 32) {
            Ok(spending_key) => Ok(SaplingKey { spending_key }),
            Err(_) => Err(IronfishError::new(IronfishErrorKind::InvalidSigningKey)),
        }
    }

    /// The spending key as 64 hexadecimal digits.
    pub fn hex_spending_key(&self) -> (r: String)
        requires
            self.valid(),
        ensures
            r@ == spec_to_hex(self.spending_key@),
    {
        bytes_to_hex(self.spending_key.as_slice())
    }

    /// Derives the incoming view key scalar.
    pub fn incoming_view_key(&self) -> (r: IncomingViewKey)
        requires
            self.valid(),
        ensures
            r.key@ == spec_incoming_view_key(self.spending_key@),
            r.valid(),
    {
        let t_a = tag(TAG_IVK_A);
        let t_b = tag(TAG_IVK_B);
        let mut wide = blake2s(t_a.as_slice(), self.spending_key.as_slice());
        let mut second = blake2s(t_b.as_slice(), self.spending_key.as_slice());
        wide.append(&mut second);
        IncomingViewKey { key: scalar_from_wide(wide.as_slice()) }
    }

    /// Derives the outgoing view key.
    pub fn outgoing_view_key(&self) -> (r: OutgoingViewKey)
        requires
            self.valid(),
        ensures
            r.key@ == spec_outgoing_view_key(self.spending_key@),
            r.valid(),
    {
        let t = tag(TAG_OVK);
        OutgoingViewKey { key: blake2s(t.as_slice(), self.spending_key.as_slice()) }
    }

    /// Derives the authorizing and nullifier-deriving keys.
    pub fn view_key(&self) -> (r: ViewKey)
        requires
            self.valid(),
        ensures
            r.authorizing_key@ == spec_authorizing_key(self.spending_key@),
            r.nullifier_deriving_key@ == spec_nullifier_deriving_key(self.spending_key@),
            r.valid(),
    {
        let t_ak = tag(TAG_AK);
        let t_nk = tag(TAG_NK);
        ViewKey {
            authorizing_key: blake2s(t_ak.as_slice(), self.spending_key.as_slice()),
            nullifier_deriving_key: blake2s(t_nk.as_slice(), self.spending_key.as_slice()),
        }
    }

    /// Derives the spend-authorizing scalar used for signing.
    pub fn spend_authorizing_key(&self) -> (r: Vec<u8>)
        requires
            self.valid(),
        ensures
            r@ == spec_spend_authorizing_key(self.spending_key@),
            r@.len() == 32,
            scalar_canonical(r@),
    {
        let t_a = tag(TAG_ASK_A);
        let t_b = tag(TAG_ASK_B);
        let mut wide = blake2s(t_a.as_slice(), self.spending_key.as_slice());
        let mut second = blake2s(t_b.as_slice(), self.spending_key.as_slice());
        wide.append(&mut second);
        scalar_from_wide(wide.as_slice())
    }

    /// The public address of this key's account.
    pub fn public_address(&self) -> (r: PublicAddress)
        requires
            self.valid(),
        ensures
            r.bytes@ == spec_public_address(self.spending_key@),
            r.valid(),
    {
        self.incoming_view_key().public_address()
    }
}

} // verus!
