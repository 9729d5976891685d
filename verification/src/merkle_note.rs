//! The encrypted-note transport format and the Merkle tree node type.
//!
//! A [`MerkleNote`] wraps a note's ciphertext together with the commitment
//! material a node needs to place it in the tree without decrypting it.
//! Decryption succeeds only for the matching incoming or outgoing view
//! key and otherwise reports absence, never a wrong note.

use vstd::bytes::{
    lemma_auto_spec_u64_to_from_le_bytes, spec_u64_from_le_bytes, spec_u64_to_le_bytes,
    u64_from_le_bytes, u64_to_le_bytes,
};
use vstd::prelude::*;

use crate::assets::AssetIdentifier;
use crate::crypto::{
    base_canonical, base_repr_valid, blake2s, blake2s_of, combine_node, derive_public, ecdh_of,
    merkle_combine, point_check, point_valid, pub_key_of, random_bytes_32, scalar_canonical,
    scalar_from_wide, scalar_repr_valid, shared_secret,
};
use crate::errors::{IronfishError, IronfishErrorKind};
use crate::keys::{
    spec_outgoing_view_key, spec_tag, tag, IncomingViewKey, OutgoingViewKey, PublicAddress,
    SaplingKey, TAG_ENCRYPTION_KEY, TAG_KEYSTREAM, TAG_MAC, TAG_OCK, TAG_VALUE_COMMITMENT,
};
use crate::note::{spec_commitment, spec_mask_to_base, Memo, Note, ENCRYPTED_NOTE_SIZE};
use crate::util::{bytes_eq, slice_range_to_vec};

verus! {

/// Width in bytes of a ciphertext authentication tag.
pub const MAC_SIZE: usize = 16;

/// Width in bytes of the encrypted key material a spender's outgoing view
/// key can open: the ephemeral secret and the owner address, plus a tag.
pub const NOTE_ENCRYPTION_KEY_SIZE: usize = 80;

/// Width in bytes of a serialized encrypted note: value commitment, note
/// commitment, ephemeral public key, note ciphertext with its tag, and
/// the outgoing key material.
pub const ENCRYPTED_NOTE_LENGTH: usize = 328;

/// One 32-byte block of the encryption keystream for a key.
pub open spec fn spec_keystream_block(key: Seq<u8>, i: u8) -> Seq<u8> {
    blake2s_of(spec_tag(TAG_KEYSTREAM), key + seq![i])
}

/// The first `len` bytes of the keystream for a key.
pub open spec fn spec_keystream(key: Seq<u8>, len: nat) -> Seq<u8> {
    Seq::new(len, |j: int| spec_keystream_block(key, (j / 32) as u8)[j % 32])
}

/// The bytewise exclusive-or of two equal-length byte strings.
pub open spec fn spec_xor(a: Seq<u8>, b: Seq<u8>) -> Seq<u8>
    recommends
        a.len() == b.len(),
{
    Seq::new(a.len(), |i: int| (a[i] ^ b[i]) as u8)
}

/// The 16-byte authentication tag of a ciphertext under a key.
pub open spec fn spec_mac(key: Seq<u8>, cipher: Seq<u8>) -> Seq<u8> {
    Seq::new(16, |i: int| blake2s_of(spec_tag(TAG_MAC), key + cipher)[i])
}

/// The symmetric note-encryption key derived from a shared secret and the
/// ephemeral public key.
pub open spec fn spec_enc_key(shared: Seq<u8>, epk: Seq<u8>) -> Seq<u8> {
    blake2s_of(spec_tag(TAG_ENCRYPTION_KEY), shared + epk)
}

/// The 136-byte plaintext payload of a note: value, randomness, asset
/// identifier, memo and sender.
pub open spec fn spec_encrypted_payload(n: Note) -> Seq<u8> {
    spec_u64_to_le_bytes(n.value) + n.randomness@ + n.asset_id.bytes@ + n.memo.0@
        + n.sender.bytes@
}

/// The note ciphertext with its tag, for an ephemeral secret: the payload
/// XORed with the keystream of the owner-directed key, then the tag.
pub open spec fn spec_encrypted_note(note: Note, esk: Seq<u8>) -> Seq<u8> {
    let key = spec_enc_key(ecdh_of(esk, note.owner.bytes@), pub_key_of(esk));
    let cipher = spec_xor(spec_encrypted_payload(note), spec_keystream(key, 136));
    cipher + spec_mac(key, cipher)
}

/// The outgoing cipher key: what a spender's outgoing view key, the two
/// commitments and the ephemeral public key derive.
pub open spec fn spec_ock(ovk: Seq<u8>, vc: Seq<u8>, nc: Seq<u8>, epk: Seq<u8>) -> Seq<u8> {
    blake2s_of(spec_tag(TAG_OCK), ovk + vc + nc + epk)
}

/// The outgoing key material: the ephemeral secret and owner address
/// encrypted to the outgoing cipher key, with a tag.
pub open spec fn spec_note_encryption_key(
    ovk: Seq<u8>,
    note: Note,
    vc: Seq<u8>,
    esk: Seq<u8>,
) -> Seq<u8> {
    let ock = spec_ock(ovk, vc, spec_commitment(note), pub_key_of(esk));
    let cipher = spec_xor(esk + note.owner.bytes@, spec_keystream(ock, 64));
    cipher + spec_mac(ock, cipher)
}

/// A tree-node value: 32 bytes that are the canonical encoding of a field
/// element.
#[derive(Debug, Clone)]
pub struct MerkleNoteHash(pub Vec<u8>);

impl MerkleNoteHash {
    /// A well-formed node value is a canonical 32-byte field encoding.
    pub open spec fn valid(&self) -> bool {
        self.0@.len() == 32 && base_canonical(self.0@)
    }

    /// Reads a node value, rejecting anything but a canonical 32-byte
    /// encoding.
    pub fn read(bytes: &[u8]) -> (r: Result<MerkleNoteHash, IronfishError>)
        ensures
            r is Ok <==> bytes@.len() == 32 && base_canonical(bytes@),
            r matches Ok(h) ==> h.0@ == bytes@ && h.valid(),
            r matches Err(e) ==> e.kind == IronfishErrorKind::InvalidData,
    {
        if bytes.len() != 32 {
            return Err(IronfishError::new(IronfishErrorKind::InvalidData));
        }
        if !base_repr_valid(bytes) {
            return Err(IronfishError::new(IronfishErrorKind::InvalidData));
        }
        Ok(MerkleNoteHash(slice_range_to_vec(bytes, 0, 32)))
    }

    /// The node value's bytes.
    pub fn write(&self) -> (r: Vec<u8>)
        ensures
            r@ == self.0@,
    {
        self.0.clone()
    }

    /// Combines two children into their parent node at a depth. The rule
    /// is a pure function: identical inputs at a depth always produce the
    /// identical parent, so independently computed roots agree.
    pub fn combine_hash(depth: usize, left: &MerkleNoteHash, right: &MerkleNoteHash) -> (r:
        MerkleNoteHash)
        requires
            depth < 63,
            left.valid(),
            right.valid(),
        ensures
            r.0@ == merkle_combine(depth as int, left.0@, right.0@),
            r.valid(),
    {
        MerkleNoteHash(combine_node(depth, left.0.as_slice(), right.0.as_slice()))
    }
}

/// A commitment to a value of an asset, blinded by fresh randomness.
#[derive(Debug, Clone)]
pub struct ValueCommitment {
    pub value: u64,
    pub randomness: Vec<u8>,
    pub asset_generator: Vec<u8>,
}

/// The commitment bytes that a value commitment produces: a personalized
/// hash of generator, value and randomness, masked into the tree-node
/// field.
pub open spec fn spec_vc_commitment(vc: ValueCommitment) -> Seq<u8> {
    spec_mask_to_base(
        blake2s_of(
            spec_tag(TAG_VALUE_COMMITMENT),
            vc.asset_generator@ + spec_u64_to_le_bytes(vc.value) + vc.randomness@,
        ),
    )
}

impl ValueCommitment {
    /// A well-formed value commitment carries 32 bytes of randomness and
    /// a 32-byte asset generator.
    pub open spec fn valid(&self) -> bool {
        self.randomness@.len() == 32 && self.asset_generator@.len() == 32
    }

    /// Commits to a value of an asset with fresh blinding randomness.
    pub fn new(value: u64, asset_generator: Vec<u8>) -> (r: ValueCommitment)
        requires
            asset_generator@.len() == 32,
        ensures
            r.value == value,
            r.asset_generator@ == asset_generator@,
            r.valid(),
    {
        ValueCommitment { value, randomness: random_bytes_32(), asset_generator }
    }

    /// The blinded commitment bytes.
    pub fn commitment(&self) -> (r: Vec<u8>)
        requires
            self.valid(),
        ensures
            r@ == spec_vc_commitment(*self),
            r@.len() == 32,
            r@[31] < 16,
            base_canonical(r@),
    {
        let t = tag(TAG_VALUE_COMMITMENT);
        let mut payload = self.asset_generator.clone();
        let mut value_bytes = u64_to_le_bytes(self.value);
        let mut randomness = self.randomness.clone();
        payload.append(&mut value_bytes);
        payload.append(&mut randomness);
        proof {
            assert(payload@ =~= self.asset_generator@ + spec_u64_to_le_bytes(self.value)
                + self.randomness@);
        }
        let mut out = blake2s(t.as_slice(), payload.as_slice());
        let last = out[31];
        out[31] = last & 0x0f;
        proof {
            assert(out@ =~= spec_vc_commitment(*self));
            assert((last & 0x0f) < 16) by (bit_vector);
        }
        let canonical = base_repr_valid(out.as_slice());
        proof {
            assert(canonical);
        }
        out
    }
}

/// A fresh Diffie-Hellman key pair bound to one encrypted note.
#[derive(Debug, Clone)]
pub struct EphemeralKeyPair {
    pub secret: Vec<u8>,
    pub public: Vec<u8>,
}

impl EphemeralKeyPair {
    /// A well-formed pair: a canonical secret scalar and exactly its
    /// public point.
    pub open spec fn valid(&self) -> bool {
        &&& self.secret@.len() == 32
        &&& scalar_canonical(self.secret@)
        &&& self.public@.len() == 32
        &&& self.public@ == pub_key_of(self.secret@)
        &&& point_valid(self.public@)
    }

    /// Draws a fresh key pair.
    pub fn new() -> (r: EphemeralKeyPair)
        ensures
            r.valid(),
    {
        let mut wide = random_bytes_32();
        let mut second = random_bytes_32();
        wide.append(&mut second);
        let secret = scalar_from_wide(wide.as_slice());
        match derive_public(secret.as_slice()) {
            Some(public) => EphemeralKeyPair { secret, public },
            None => {
                proof {
                    assert(false);
                }
                EphemeralKeyPair { secret, public: Vec::new() }
            },
        }
    }

    /// Rebuilds a pair from its 64-byte form: secret then public. The
    /// secret must be a canonical scalar and the stored public point must
    /// be the secret's own.
    pub fn from_bytes_le(bytes: &[u8]) -> (r: Result<EphemeralKeyPair, IronfishError>)
        ensures
            r is Ok <==> (bytes@.len() == 64 && scalar_canonical(bytes@.subrange(0, 32))
                && bytes@.subrange(32, 64) == pub_key_of(bytes@.subrange(0, 32))),
            r matches Ok(kp) ==> {
                &&& kp.secret@ == bytes@.subrange(0, 32)
                &&& kp.public@ == bytes@.subrange(32, 64)
                &&& kp.valid()
            },
            r matches Err(e) ==> e.kind == IronfishErrorKind::InvalidData,
    {
        if bytes.len() != 64 {
            return Err(IronfishError::new(IronfishErrorKind::InvalidData));
        }
        let secret = slice_range_to_vec(bytes, 0, 32);
        let public = slice_range_to_vec(bytes, 32, 64);
        if !scalar_repr_valid(secret.as_slice()) {
            return Err(IronfishError::new(IronfishErrorKind::InvalidData));
        }
        match derive_public(secret.as_slice()) {
            Some(derived) => {
                if bytes_eq(derived.as_slice(), public.as_slice()) {
                    Ok(EphemeralKeyPair { secret, public })
                } else {
                    Err(IronfishError::new(IronfishErrorKind::InvalidData))
                }
            },
            None => Err(IronfishError::new(IronfishErrorKind::InvalidData)),
        }
    }

    /// The pair's 64-byte form: secret then public.
    pub fn to_bytes_le(&self) -> (r: Vec<u8>)
        ensures
            r@ == self.secret@ + self.public@,
    {
        let mut out = self.secret.clone();
        let mut public = self.public.clone();
        out.append(&mut public);
        out
    }
}

/// Computes the first `len` bytes of the keystream for a key.
fn keystream(key: &Vec<u8>, len: usize) -> (r: Vec<u8>)
    requires
        len <= 8160,
    ensures
        r@ == spec_keystream(key@, len as nat),
{
    let mut out: Vec<u8> = Vec::new();
    let t = tag(TAG_KEYSTREAM);
    let mut block_index: usize = 0;
    while out.len() < len
        invariant
            t@ == spec_tag(TAG_KEYSTREAM),
            len <= 8160,
            out@.len() == 32 * block_index || (out@.len() == len && len <= 32 * block_index),
            out@.len() <= len,
            block_index <= 255,
            forall|j: int| 0 <= j < out@.len() ==> out@[j] == spec_keystream(key@, len as nat)[j],
        decreases len - out@.len(),
    {
        let mut input = key.clone();
        input.push(block_index as u8);
        proof {
            assert(input@ =~= key@ + seq![block_index as u8]);
        }
        let block = blake2s(t.as_slice(), input.as_slice());
        let mut k: usize = 0;
        while k < 32 && out.len() < len
            invariant
                k <= 32,
                block@ == spec_keystream_block(key@, block_index as u8),
                block@.len() == 32,
                len <= 8160,
                block_index <= 254,
                out@.len() <= len,
                out@.len() == 32 * block_index + k || (out@.len() == len && len <= 32
                    * block_index + k),
                forall|j: int|
                    0 <= j < out@.len() ==> out@[j] == spec_keystream(key@, len as nat)[j],
            decreases 32 - k,
        {
            proof {
                let j = out@.len() as int;
                assert(j / 32 == block_index && j % 32 == k);
            }
            out.push(block[k]);
            k = k + 1;
        }
        block_index = block_index + 1;
    }
    proof {
        assert(out@ =~= spec_keystream(key@, len as nat));
    }
    out
}

/// XORs two equal-length byte strings.
fn xor_bytes(a: &[u8], b: &[u8]) -> (r: Vec<u8>)
    requires
        a@.len() == b@.len(),
    ensures
        r@ == spec_xor(a@, b@),
{
    let mut out: Vec<u8> = Vec::new();
    let mut i: usize = 0;
    while i < a.len()
        invariant
            i <= a@.len(),
            a@.len() == b@.len(),
            out@.len() == i,
            forall|j: int| 0 <= j < i ==> out@[j] == (a@[j] ^ b@[j]) as u8,
        decreases a@.len() - i,
    {
        out.push(a[i] ^ b[i]);
        i = i + 1;
    }
    proof {
        assert(out@ =~= spec_xor(a@, b@));
    }
    out
}

/// XOR with the same keystream twice gives the plaintext back.
pub proof fn lemma_xor_cancel(p: Seq<u8>, k: Seq<u8>)
    requires
        p.len() == k.len(),
    ensures
        spec_xor(spec_xor(p, k), k) == p,
{
    assert forall|i: int| 0 <= i < p.len() implies spec_xor(spec_xor(p, k), k)[i] == p[i] by {
        let a = p[i];
        let b = k[i];
        assert(((a ^ b) ^ b) == a) by (bit_vector);
    }
    assert(spec_xor(spec_xor(p, k), k) =~= p);
}

/// Computes the 16-byte tag of a ciphertext under a key.
fn compute_mac(key: &Vec<u8>, cipher: &Vec<u8>) -> (r: Vec<u8>)
    ensures
        r@ == spec_mac(key@, cipher@),
        r@.len() == 16,
{
    let t = tag(TAG_MAC);
    let mut input = key.clone();
    let mut cipher_part = cipher.clone();
    input.append(&mut cipher_part);
    proof {
        assert(input@ =~= key@ + cipher@);
    }
    let full = blake2s(t.as_slice(), input.as_slice());
    let out = slice_range_to_vec(full.as_slice(), 0, 16);
    proof {
        assert(out@ =~= spec_mac(key@, cipher@));
    }
    out
}

/// An encrypted note as it travels and as the tree stores it: the value
/// commitment, the note commitment, the ephemeral public key, the note
/// ciphertext with its tag, and key material the spender's outgoing view
/// key can open. Equality is exact field equality.
#[derive(Debug, Clone)]
pub struct MerkleNote {
    pub value_commitment: Vec<u8>,
    pub note_commitment: Vec<u8>,
    pub ephemeral_public_key: Vec<u8>,
    pub encrypted_note: Vec<u8>,
    pub note_encryption_key: Vec<u8>,
}

/// Whether a merkle note is exactly the encryption of `note` under the
/// ephemeral secret `esk`, carrying value-commitment bytes `vc` and key
/// material for the outgoing view key `ovk`.
pub open spec fn spec_is_encryption_of(
    m: MerkleNote,
    ovk: Seq<u8>,
    note: Note,
    vc: Seq<u8>,
    esk: Seq<u8>,
) -> bool {
    &&& note.valid()
    &&& esk.len() == 32
    &&& scalar_canonical(esk)
    &&& point_valid(pub_key_of(esk))
    &&& m.value_commitment@ == vc
    &&& m.note_commitment@ == spec_commitment(note)
    &&& m.ephemeral_public_key@ == pub_key_of(esk)
    &&& m.encrypted_note@ == spec_encrypted_note(note, esk)
    &&& m.note_encryption_key@ == spec_note_encryption_key(ovk, note, vc, esk)
}

/// The wire form of an encrypted note.
pub open spec fn spec_merkle_note_bytes(m: MerkleNote) -> Seq<u8> {
    m.value_commitment@ + m.note_commitment@ + m.ephemeral_public_key@ + m.encrypted_note@
        + m.note_encryption_key@
}

impl MerkleNote {
    /// A well-formed encrypted note: fixed field widths, canonical
    /// commitment encodings, and an ephemeral key that is a group point.
    pub open spec fn valid(&self) -> bool {
        &&& self.value_commitment@.len() == 32
        &&& base_canonical(self.value_commitment@)
        &&& self.note_commitment@.len() == 32
        &&& base_canonical(self.note_commitment@)
        &&& self.ephemeral_public_key@.len() == 32
        &&& point_valid(self.ephemeral_public_key@)
        &&& self.encrypted_note@.len() == 152
        &&& self.note_encryption_key@.len() == 80
    }

    /// Encrypts a note for its owner, binding it to a value commitment
    /// and a fresh ephemeral key pair, and leaves the spender a way back
    /// in through the outgoing view key.
    pub fn new(
        spender_key: &SaplingKey,
        note: &Note,
        value_commitment: &ValueCommitment,
        diffie_hellman_keys: &EphemeralKeyPair,
    ) -> (r: MerkleNote)
        requires
            spender_key.valid(),
            note.valid(),
            value_commitment.valid(),
            diffie_hellman_keys.valid(),
        ensures
            spec_is_encryption_of(
                r,
                spec_outgoing_view_key(spender_key.spending_key@),
                *note,
                spec_vc_commitment(*value_commitment),
                diffie_hellman_keys.secret@,
            ),
            r.valid(),
    {
        let epk = diffie_hellman_keys.public.clone();
        let shared = match shared_secret(
            diffie_hellman_keys.secret.as_slice(),
            note.owner.bytes.as_slice(),
        ) {
            Some(s) => s,
            None => {
                proof {
                    assert(false);
                }
                Vec::new()
            },
        };
        let t_key = tag(TAG_ENCRYPTION_KEY);
        let mut key_input = shared;
        let mut epk_copy = epk.clone();
        key_input.append(&mut epk_copy);
        proof {
            assert(key_input@ =~= ecdh_of(diffie_hellman_keys.secret@, note.owner.bytes@) + epk@);
        }
        let key = blake2s(t_key.as_slice(), key_input.as_slice());

        let mut payload = u64_to_le_bytes(note.value);
        let mut randomness = note.randomness.clone();
        let mut asset = note.asset_id.bytes.clone();
        let mut memo = note.memo.0.clone();
        let mut sender = note.sender.bytes.clone();
        payload.append(&mut randomness);
        payload.append(&mut asset);
        payload.append(&mut memo);
        payload.append(&mut sender);
        proof {
            assert(payload@ =~= spec_encrypted_payload(*note));
            assert(payload@.len() == 8 + 32 + 32 + 32 + 32);
        }
        let ks = keystream(&key, ENCRYPTED_NOTE_SIZE);
        let cipher = xor_bytes(payload.as_slice(), ks.as_slice());
        let mac = compute_mac(&key, &cipher);
        let mut encrypted_note = cipher;
        let mut mac_part = mac;
        encrypted_note.append(&mut mac_part);

        let value_commitment_bytes = value_commitment.commitment();
        let note_commitment = note.commitment();

        let ovk = spender_key.outgoing_view_key();
        let t_ock = tag(TAG_OCK);
        let mut ock_input = ovk.key.clone();
        let mut vc_copy = value_commitment_bytes.clone();
        let mut nc_copy = note_commitment.clone();
        let mut epk_copy2 = epk.clone();
        ock_input.append(&mut vc_copy);
        ock_input.append(&mut nc_copy);
        ock_input.append(&mut epk_copy2);
        proof {
            assert(ock_input@ =~= spec_outgoing_view_key(spender_key.spending_key@)
                + spec_vc_commitment(*value_commitment) + spec_commitment(*note) + epk@);
        }
        let ock = blake2s(t_ock.as_slice(), ock_input.as_slice());

        let mut secret_payload = diffie_hellman_keys.secret.clone();
        let mut owner_copy = note.owner.bytes.clone();
        secret_payload.append(&mut owner_copy);
        proof {
            assert(secret_payload@ =~= diffie_hellman_keys.secret@ + note.owner.bytes@);
        }
        let ks2 = keystream(&ock, 64);
        let cipher2 = xor_bytes(secret_payload.as_slice(), ks2.as_slice());
        let mac2 = compute_mac(&ock, &cipher2);
        let mut note_encryption_key = cipher2;
        let mut mac2_part = mac2;
        note_encryption_key.append(&mut mac2_part);

        let result = MerkleNote {
            value_commitment: value_commitment_bytes,
            note_commitment,
            ephemeral_public_key: epk,
            encrypted_note,
            note_encryption_key,
        };
        proof {
            assert(result.encrypted_note@ =~= spec_encrypted_note(
                *note,
                diffie_hellman_keys.secret@,
            ));
            assert(result.note_encryption_key@ =~= spec_note_encryption_key(
                spec_outgoing_view_key(spender_key.spending_key@),
                *note,
                spec_vc_commitment(*value_commitment),
                diffie_hellman_keys.secret@,
            ));
        }
        result
    }

    /// The hash under which this encrypted note sits as a tree leaf: its
    /// note commitment, available without any decryption.
    pub fn merkle_hash(&self) -> (r: MerkleNoteHash)
        requires
            self.valid(),
        ensures
            r.0@ == self.note_commitment@,
            r.valid(),
    {
        MerkleNoteHash(self.note_commitment.clone())
    }

    /// Exact equality of every field.
    pub fn equals(&self, other: &MerkleNote) -> (r: bool)
        ensures
            r == (self.value_commitment@ == other.value_commitment@ && self.note_commitment@
                == other.note_commitment@ && self.ephemeral_public_key@
                == other.ephemeral_public_key@ && self.encrypted_note@ == other.encrypted_note@
                && self.note_encryption_key@ == other.note_encryption_key@),
    {
        bytes_eq(self.value_commitment.as_slice(), other.value_commitment.as_slice())
            && bytes_eq(self.note_commitment.as_slice(), other.note_commitment.as_slice())
            && bytes_eq(self.ephemeral_public_key.as_slice(), other.ephemeral_public_key.as_slice())
            && bytes_eq(self.encrypted_note.as_slice(), other.encrypted_note.as_slice())
            && bytes_eq(self.note_encryption_key.as_slice(), other.note_encryption_key.as_slice())
    }

    /// Serializes the encrypted note to its 328-byte wire form.
    pub fn serialize(&self) -> (r: Vec<u8>)
        requires
            self.valid(),
        ensures
            r@ == spec_merkle_note_bytes(*self),
            r@.len() == 328,
    {
        let mut out = self.value_commitment.clone();
        let mut nc = self.note_commitment.clone();
        let mut epk = self.ephemeral_public_key.clone();
        let mut enc = self.encrypted_note.clone();
        let mut nek = self.note_encryption_key.clone();
        out.append(&mut nc);
        out.append(&mut epk);
        out.append(&mut enc);
        out.append(&mut nek);
        proof {
            assert(out@ =~= spec_merkle_note_bytes(*self));
            assert(out@.len() == 32 + 32 + 32 + 152 + 80);
        }
        out
    }

    /// Reads an encrypted note from its 328-byte wire form, rejecting a
    /// wrong length, non-canonical commitment encodings, and an ephemeral
    /// key that is no group point.
    pub fn deserialize(bytes: &[u8]) -> (r: Result<MerkleNote, IronfishError>)
        ensures
            r is Ok <==> (bytes@.len() == 328 && base_canonical(bytes@.subrange(0, 32))
                && base_canonical(bytes@.subrange(32, 64)) && point_valid(
                bytes@.subrange(64, 96),
            )),
            r matches Ok(m) ==> {
                &&& m.valid()
                &&& spec_merkle_note_bytes(m) == bytes@
            },
            r matches Err(e) ==> e.kind == IronfishErrorKind::InvalidData,
    {
        if bytes.len() != ENCRYPTED_NOTE_LENGTH {
            return Err(IronfishError::new(IronfishErrorKind::InvalidData));
        }
        let value_commitment = slice_range_to_vec(bytes, 0, 32);
        let note_commitment = slice_range_to_vec(bytes, 32, 64);
        let ephemeral_public_key = slice_range_to_vec(bytes, 64, 96);
        let encrypted_note = slice_range_to_vec(bytes, 96, 248);
        let note_encryption_key = slice_range_to_vec(bytes, 248, 328);
        if !base_repr_valid(value_commitment.as_slice()) {
            return Err(IronfishError::new(IronfishErrorKind::InvalidData));
        }
        if !base_repr_valid(note_commitment.as_slice()) {
            return Err(IronfishError::new(IronfishErrorKind::InvalidData));
        }
        if !point_check(ephemeral_public_key.as_slice()) {
            return Err(IronfishError::new(IronfishErrorKind::InvalidData));
        }
        let m = MerkleNote {
            value_commitment,
            note_commitment,
            ephemeral_public_key,
            encrypted_note,
            note_encryption_key,
        };
        proof {
            assert(spec_merkle_note_bytes(m) =~= bytes@);
        }
        Ok(m)
    }
}

impl MerkleNote {
    /// Hashes two child tree nodes, given as bytes, into their parent at
    /// a depth: the byte-level form of the combination rule. It accepts
    /// exactly canonical 32-byte node values and depths the rule is
    /// defined for, and is deterministic: identical inputs always give
    /// identical bytes.
    pub fn combine_hash(depth: usize, left: &[u8], right: &[u8]) -> (r: Result<
        Vec<u8>,
        IronfishError,
    >)
        ensures
            r is Ok <==> (depth < 63 && left@.len() == 32 && base_canonical(left@)
                && right@.len() == 32 && base_canonical(right@)),
            r matches Ok(h) ==> h@ == merkle_combine(depth as int, left@, right@) && h@.len()
                == 32,
            r matches Err(e) ==> e.kind == IronfishErrorKind::InvalidData,
    {
        let left_hash = match MerkleNoteHash::read(left) {
            Ok(h) => h,
            Err(e) => { return Err(e) },
        };
        let right_hash = match MerkleNoteHash::read(right) {
            Ok(h) => h,
            Err(e) => { return Err(e) },
        };
        if depth >= 63 {
            return Err(IronfishError::new(IronfishErrorKind::InvalidData));
        }
        Ok(MerkleNoteHash::combine_hash(depth, &left_hash, &right_hash).write())
    }
}

/// The symmetric key an incoming view key derives for an encrypted note.
pub open spec fn spec_owner_key(m: MerkleNote, ivk: Seq<u8>) -> Seq<u8> {
    spec_enc_key(ecdh_of(ivk, m.ephemeral_public_key@), m.ephemeral_public_key@)
}

/// The plaintext an incoming view key recovers from the note ciphertext.
pub open spec fn spec_owner_plaintext(m: MerkleNote, ivk: Seq<u8>) -> Seq<u8> {
    spec_xor(m.encrypted_note@.subrange(0, 136), spec_keystream(spec_owner_key(m, ivk), 136))
}

/// When decryption with an incoming view key succeeds: the ephemeral key
/// is a group point, the tag verifies under the derived key, and the
/// recovered plaintext parses as a well-formed note payload.
pub open spec fn spec_owner_can_decrypt(m: MerkleNote, ivk: Seq<u8>) -> bool {
    let p = spec_owner_plaintext(m, ivk);
    &&& point_valid(m.ephemeral_public_key@)
    &&& m.encrypted_note@.subrange(136, 152) == spec_mac(
        spec_owner_key(m, ivk),
        m.encrypted_note@.subrange(0, 136),
    )
    &&& scalar_canonical(p.subrange(8, 40))
    &&& (p.subrange(40, 72) == crate::assets::spec_native_id() || crate::crypto::asset_generator_valid(
        p.subrange(40, 72),
    ))
    &&& point_valid(p.subrange(104, 136))
}

/// The fields of a well-formed note sit at fixed offsets of its payload.
proof fn lemma_payload_parse(note: Note, p: Seq<u8>)
    requires
        note.valid(),
        p == spec_encrypted_payload(note),
    ensures
        p.len() == 136,
        p.subrange(0, 8) == spec_u64_to_le_bytes(note.value),
        spec_u64_from_le_bytes(p.subrange(0, 8)) == note.value,
        p.subrange(8, 40) == note.randomness@,
        p.subrange(40, 72) == note.asset_id.bytes@,
        p.subrange(72, 104) == note.memo.0@,
        p.subrange(104, 136) == note.sender.bytes@,
{
    lemma_auto_spec_u64_to_from_le_bytes();
    assert(p.subrange(0, 8) =~= spec_u64_to_le_bytes(note.value));
    assert(p.subrange(8, 40) =~= note.randomness@);
    assert(p.subrange(40, 72) =~= note.asset_id.bytes@);
    assert(p.subrange(72, 104) =~= note.memo.0@);
    assert(p.subrange(104, 136) =~= note.sender.bytes@);
}

/// Under the key equality that Diffie-Hellman gives the rightful owner,
/// the stored ciphertext and tag are exactly the ones the owner key
/// recomputes, and the recovered plaintext is the original payload.
proof fn lemma_owner_recovers(m: MerkleNote, ivk: Seq<u8>, ovk: Seq<u8>, note: Note, vc: Seq<u8>, esk: Seq<u8>)
    requires
        spec_is_encryption_of(m, ovk, note, vc, esk),
        note.owner.bytes@ == pub_key_of(ivk),
        ecdh_of(ivk, m.ephemeral_public_key@) == ecdh_of(esk, pub_key_of(ivk)),
    ensures
        spec_owner_key(m, ivk) == spec_enc_key(ecdh_of(esk, note.owner.bytes@), pub_key_of(esk)),
        m.encrypted_note@.subrange(0, 136) == spec_xor(
            spec_encrypted_payload(note),
            spec_keystream(spec_owner_key(m, ivk), 136),
        ),
        m.encrypted_note@.subrange(136, 152) == spec_mac(
            spec_owner_key(m, ivk),
            m.encrypted_note@.subrange(0, 136),
        ),
        spec_owner_plaintext(m, ivk) == spec_encrypted_payload(note),
{
    lemma_payload_parse(note, spec_encrypted_payload(note));
    let key = spec_enc_key(ecdh_of(esk, note.owner.bytes@), pub_key_of(esk));
    let payload = spec_encrypted_payload(note);
    let cipher = spec_xor(payload, spec_keystream(key, 136));
    let mac = spec_mac(key, cipher);
    assert(m.encrypted_note@ == cipher + mac);
    assert(m.encrypted_note@.subrange(0, 136) =~= cipher);
    assert(m.encrypted_note@.subrange(136, 152) =~= mac);
    assert(spec_owner_key(m, ivk) == key);
    lemma_xor_cancel(payload, spec_keystream(key, 136));
}

impl MerkleNote {
    /// Tries to decrypt the note for the holder of an incoming view key.
    /// The rightful owner always gets the original note back; any other
    /// key sees absence, never a wrong note presented as success.
    pub fn decrypt_note_for_owner(&self, owner_view_key: &IncomingViewKey) -> (r: Option<Note>)
        requires
            self.valid(),
            owner_view_key.valid(),
        ensures
            r is Some <==> spec_owner_can_decrypt(*self, owner_view_key.key@),
            r matches Some(n) ==> {
                &&& n.valid()
                &&& n.owner.bytes@ == pub_key_of(owner_view_key.key@)
                &&& spec_encrypted_payload(n) == spec_owner_plaintext(*self, owner_view_key.key@)
            },
            forall|ovk: Seq<u8>, note: Note, vc: Seq<u8>, esk: Seq<u8>|
                #[trigger] spec_is_encryption_of(*self, ovk, note, vc, esk)
                    && note.owner.bytes@ == pub_key_of(owner_view_key.key@) ==> (r matches Some(n)
                    && n.owner.bytes@ == note.owner.bytes@ && n.value == note.value
                    && n.randomness@ == note.randomness@ && n.memo.0@ == note.memo.0@
                    && n.asset_id.bytes@ == note.asset_id.bytes@ && n.sender.bytes@
                    == note.sender.bytes@),
    {
        let ghost ivk = owner_view_key.key@;
        let shared = match shared_secret(
            owner_view_key.key.as_slice(),
            self.ephemeral_public_key.as_slice(),
        ) {
            Some(s) => s,
            None => {
                proof {
                    assert(!point_valid(self.ephemeral_public_key@));
                    assert forall|ovk: Seq<u8>, note: Note, vc: Seq<u8>, esk: Seq<u8>|
                        !(#[trigger] spec_is_encryption_of(*self, ovk, note, vc, esk)
                            && note.owner.bytes@ == pub_key_of(ivk)) by {
                        if spec_is_encryption_of(*self, ovk, note, vc, esk) {
                            assert(point_valid(self.ephemeral_public_key@));
                        }
                    }
                }
                return None;
            },
        };
        let t_key = tag(TAG_ENCRYPTION_KEY);
        let mut key_input = shared;
        let mut epk_copy = self.ephemeral_public_key.clone();
        key_input.append(&mut epk_copy);
        proof {
            assert(key_input@ =~= ecdh_of(ivk, self.ephemeral_public_key@)
                + self.ephemeral_public_key@);
        }
        let key = blake2s(t_key.as_slice(), key_input.as_slice());
        let cipher = slice_range_to_vec(self.encrypted_note.as_slice(), 0, 136);
        let stored_mac = slice_range_to_vec(self.encrypted_note.as_slice(), 136, 152);
        let mac = compute_mac(&key, &cipher);
        if !bytes_eq(mac.as_slice(), stored_mac.as_slice()) {
            proof {
                assert forall|ovk: Seq<u8>, note: Note, vc: Seq<u8>, esk: Seq<u8>|
                    !(#[trigger] spec_is_encryption_of(*self, ovk, note, vc, esk)
                        && note.owner.bytes@ == pub_key_of(ivk)) by {
                    if spec_is_encryption_of(*self, ovk, note, vc, esk) && note.owner.bytes@
                        == pub_key_of(ivk) {
                        lemma_owner_recovers(*self, ivk, ovk, note, vc, esk);
                        assert(mac@ == stored_mac@);
                    }
                }
            }
            return None;
        }
        let ks = keystream(&key, ENCRYPTED_NOTE_SIZE);
        let plain = xor_bytes(cipher.as_slice(), ks.as_slice());
        proof {
            assert(plain@ == spec_owner_plaintext(*self, ivk));
        }
        let value_bytes = slice_range_to_vec(plain.as_slice(), 0, 8);
        let randomness = slice_range_to_vec(plain.as_slice(), 8, 40);
        let asset_bytes = slice_range_to_vec(plain.as_slice(), 40, 72);
        let memo_bytes = slice_range_to_vec(plain.as_slice(), 72, 104);
        let sender_bytes = slice_range_to_vec(plain.as_slice(), 104, 136);
        if !scalar_repr_valid(randomness.as_slice()) {
            proof {
                assert forall|ovk: Seq<u8>, note: Note, vc: Seq<u8>, esk: Seq<u8>|
                    !(#[trigger] spec_is_encryption_of(*self, ovk, note, vc, esk)
                        && note.owner.bytes@ == pub_key_of(ivk)) by {
                    if spec_is_encryption_of(*self, ovk, note, vc, esk) && note.owner.bytes@
                        == pub_key_of(ivk) {
                        lemma_owner_recovers(*self, ivk, ovk, note, vc, esk);
                        lemma_payload_parse(note, plain@);
                        assert(scalar_canonical(randomness@));
                    }
                }
            }
            return None;
        }
        let asset_id = match AssetIdentifier::new(asset_bytes) {
            Ok(a) => a,
            Err(_) => {
                proof {
                    assert forall|ovk: Seq<u8>, note: Note, vc: Seq<u8>, esk: Seq<u8>|
                        !(#[trigger] spec_is_encryption_of(*self, ovk, note, vc, esk)
                            && note.owner.bytes@ == pub_key_of(ivk)) by {
                        if spec_is_encryption_of(*self, ovk, note, vc, esk) && note.owner.bytes@
                            == pub_key_of(ivk) {
                            lemma_owner_recovers(*self, ivk, ovk, note, vc, esk);
                            lemma_payload_parse(note, plain@);
                        }
                    }
                }
                return None;
            },
        };
        let sender = match PublicAddress::new(sender_bytes) {
            Ok(a) => a,
            Err(_) => {
                proof {
                    assert forall|ovk: Seq<u8>, note: Note, vc: Seq<u8>, esk: Seq<u8>|
                        !(#[trigger] spec_is_encryption_of(*self, ovk, note, vc, esk)
                            && note.owner.bytes@ == pub_key_of(ivk)) by {
                        if spec_is_encryption_of(*self, ovk, note, vc, esk) && note.owner.bytes@
                            == pub_key_of(ivk) {
                            lemma_owner_recovers(*self, ivk, ovk, note, vc, esk);
                            lemma_payload_parse(note, plain@);
                        }
                    }
                }
                return None;
            },
        };
        let owner = owner_view_key.public_address();
        let value = u64_from_le_bytes(value_bytes.as_slice());
        let note = Note {
            owner,
            value,
            randomness,
            memo: Memo(memo_bytes),
            asset_id,
            sender,
        };
        proof {
            lemma_auto_spec_u64_to_from_le_bytes();
            assert(spec_u64_to_le_bytes(note.value) == plain@.subrange(0, 8));
            assert(spec_encrypted_payload(note) =~= plain@);
            assert forall|ovk: Seq<u8>, note2: Note, vc: Seq<u8>, esk: Seq<u8>|
                (#[trigger] spec_is_encryption_of(*self, ovk, note2, vc, esk)
                    && note2.owner.bytes@ == pub_key_of(ivk)) implies (note.owner.bytes@
                == note2.owner.bytes@ && note.value == note2.value && note.randomness@
                == note2.randomness@ && note.memo.0@ == note2.memo.0@ && note.asset_id.bytes@
                == note2.asset_id.bytes@ && note.sender.bytes@ == note2.sender.bytes@) by {
                lemma_owner_recovers(*self, ivk, ovk, note2, vc, esk);
                lemma_payload_parse(note2, plain@);
            }
        }
        Some(note)
    }
}

/// The outgoing cipher key a spender's view key derives for a note.
pub open spec fn spec_spender_ock(m: MerkleNote, ovk: Seq<u8>) -> Seq<u8> {
    spec_ock(ovk, m.value_commitment@, m.note_commitment@, m.ephemeral_public_key@)
}

/// The key material a spender's view key recovers: the ephemeral secret
/// and the owner address.
pub open spec fn spec_spender_plaintext2(m: MerkleNote, ovk: Seq<u8>) -> Seq<u8> {
    spec_xor(m.note_encryption_key@.subrange(0, 64), spec_keystream(spec_spender_ock(m, ovk), 64))
}

/// The symmetric note key the spender rebuilds from the recovered
/// ephemeral secret and owner address.
pub open spec fn spec_spender_key(m: MerkleNote, ovk: Seq<u8>) -> Seq<u8> {
    spec_enc_key(
        ecdh_of(
            spec_spender_plaintext2(m, ovk).subrange(0, 32),
            spec_spender_plaintext2(m, ovk).subrange(32, 64),
        ),
        m.ephemeral_public_key@,
    )
}

/// The note plaintext the spender recovers.
pub open spec fn spec_spender_plaintext(m: MerkleNote, ovk: Seq<u8>) -> Seq<u8> {
    spec_xor(m.encrypted_note@.subrange(0, 136), spec_keystream(spec_spender_key(m, ovk), 136))
}

/// When decryption with an outgoing view key succeeds: the outer tag
/// verifies, the recovered secret and owner are usable, the inner tag
/// verifies under the rebuilt key, and the payload parses.
pub open spec fn spec_spender_can_decrypt(m: MerkleNote, ovk: Seq<u8>) -> bool {
    let p2 = spec_spender_plaintext2(m, ovk);
    let p = spec_spender_plaintext(m, ovk);
    &&& m.note_encryption_key@.subrange(64, 80) == spec_mac(
        spec_spender_ock(m, ovk),
        m.note_encryption_key@.subrange(0, 64),
    )
    &&& scalar_canonical(p2.subrange(0, 32))
    &&& point_valid(p2.subrange(32, 64))
    &&& m.encrypted_note@.subrange(136, 152) == spec_mac(
        spec_spender_key(m, ovk),
        m.encrypted_note@.subrange(0, 136),
    )
    &&& scalar_canonical(p.subrange(8, 40))
    &&& (p.subrange(40, 72) == crate::assets::spec_native_id() || crate::crypto::asset_generator_valid(
        p.subrange(40, 72),
    ))
    &&& point_valid(p.subrange(104, 136))
}

/// For a note honestly encrypted under an outgoing view key, the
/// spender-side derivations recover the ephemeral secret, the owner, the
/// original key and the original payload.
proof fn lemma_spender_recovers(m: MerkleNote, ovk: Seq<u8>, note: Note, vc: Seq<u8>, esk: Seq<u8>)
    requires
        spec_is_encryption_of(m, ovk, note, vc, esk),
    ensures
        spec_spender_plaintext2(m, ovk) == esk + note.owner.bytes@,
        spec_spender_plaintext2(m, ovk).subrange(0, 32) == esk,
        spec_spender_plaintext2(m, ovk).subrange(32, 64) == note.owner.bytes@,
        m.note_encryption_key@.subrange(64, 80) == spec_mac(
            spec_spender_ock(m, ovk),
            m.note_encryption_key@.subrange(0, 64),
        ),
        spec_spender_key(m, ovk) == spec_enc_key(
            ecdh_of(esk, note.owner.bytes@),
            pub_key_of(esk),
        ),
        m.encrypted_note@.subrange(0, 136) == spec_xor(
            spec_encrypted_payload(note),
            spec_keystream(spec_spender_key(m, ovk), 136),
        ),
        m.encrypted_note@.subrange(136, 152) == spec_mac(
            spec_spender_key(m, ovk),
            m.encrypted_note@.subrange(0, 136),
        ),
        spec_spender_plaintext(m, ovk) == spec_encrypted_payload(note),
{
    let ock = spec_ock(ovk, vc, spec_commitment(note), pub_key_of(esk));
    let p2 = esk + note.owner.bytes@;
    let cipher2 = spec_xor(p2, spec_keystream(ock, 64));
    assert(m.note_encryption_key@ == cipher2 + spec_mac(ock, cipher2));
    assert(note.owner.bytes@.len() == 32);
    assert(p2.len() == 64);
    assert(spec_spender_ock(m, ovk) == ock);
    assert(m.note_encryption_key@.subrange(0, 64) =~= cipher2);
    assert(m.note_encryption_key@.subrange(64, 80) =~= spec_mac(ock, cipher2));
    lemma_xor_cancel(p2, spec_keystream(ock, 64));
    assert(spec_spender_plaintext2(m, ovk) == p2);
    assert(spec_spender_plaintext2(m, ovk).subrange(0, 32) =~= esk);
    assert(spec_spender_plaintext2(m, ovk).subrange(32, 64) =~= note.owner.bytes@);
    let key = spec_enc_key(ecdh_of(esk, note.owner.bytes@), pub_key_of(esk));
    assert(spec_spender_key(m, ovk) == key);
    lemma_payload_parse(note, spec_encrypted_payload(note));
    let payload = spec_encrypted_payload(note);
    let cipher = spec_xor(payload, spec_keystream(key, 136));
    assert(m.encrypted_note@ == cipher + spec_mac(key, cipher));
    assert(m.encrypted_note@.subrange(0, 136) =~= cipher);
    assert(m.encrypted_note@.subrange(136, 152) =~= spec_mac(key, cipher));
    lemma_xor_cancel(payload, spec_keystream(key, 136));
}

impl MerkleNote {
    /// Tries to decrypt the note for the spender who encrypted it, using
    /// the outgoing view key. The spender who made the note always gets
    /// it back; any other key sees absence.
    pub fn decrypt_note_for_spender(&self, spender_key: &OutgoingViewKey) -> (r: Option<Note>)
        requires
            self.valid(),
            spender_key.valid(),
        ensures
            r is Some <==> spec_spender_can_decrypt(*self, spender_key.key@),
            r matches Some(n) ==> {
                &&& n.valid()
                &&& n.owner.bytes@ == spec_spender_plaintext2(*self, spender_key.key@).subrange(
                    32,
                    64,
                )
                &&& spec_encrypted_payload(n) == spec_spender_plaintext(*self, spender_key.key@)
            },
            forall|note: Note, vc: Seq<u8>, esk: Seq<u8>|
                #[trigger] spec_is_encryption_of(*self, spender_key.key@, note, vc, esk) ==> (
                r matches Some(n) && n.owner.bytes@ == note.owner.bytes@ && n.value == note.value
                    && n.randomness@ == note.randomness@ && n.memo.0@ == note.memo.0@
                    && n.asset_id.bytes@ == note.asset_id.bytes@ && n.sender.bytes@
                    == note.sender.bytes@),
    {
        let ghost ovk = spender_key.key@;
        let t_ock = tag(TAG_OCK);
        let mut ock_input = spender_key.key.clone();
        let mut vc_copy = self.value_commitment.clone();
        let mut nc_copy = self.note_commitment.clone();
        let mut epk_copy = self.ephemeral_public_key.clone();
        ock_input.append(&mut vc_copy);
        ock_input.append(&mut nc_copy);
        ock_input.append(&mut epk_copy);
        proof {
            assert(ock_input@ =~= ovk + self.value_commitment@ + self.note_commitment@
                + self.ephemeral_public_key@);
        }
        let ock = blake2s(t_ock.as_slice(), ock_input.as_slice());
        let cipher2 = slice_range_to_vec(self.note_encryption_key.as_slice(), 0, 64);
        let stored_mac2 = slice_range_to_vec(self.note_encryption_key.as_slice(), 64, 80);
        let mac2 = compute_mac(&ock, &cipher2);
        if !bytes_eq(mac2.as_slice(), stored_mac2.as_slice()) {
            proof {
                assert forall|note: Note, vc: Seq<u8>, esk: Seq<u8>|
                    !#[trigger] spec_is_encryption_of(*self, ovk, note, vc, esk) by {
                    if spec_is_encryption_of(*self, ovk, note, vc, esk) {
                        lemma_spender_recovers(*self, ovk, note, vc, esk);
                        assert(mac2@ == stored_mac2@);
                    }
                }
            }
            return None;
        }
        let ks2 = keystream(&ock, 64);
        let plain2 = xor_bytes(cipher2.as_slice(), ks2.as_slice());
        proof {
            assert(plain2@ == spec_spender_plaintext2(*self, ovk));
        }
        let esk = slice_range_to_vec(plain2.as_slice(), 0, 32);
        let owner_bytes = slice_range_to_vec(plain2.as_slice(), 32, 64);
        if !scalar_repr_valid(esk.as_slice()) {
            proof {
                assert forall|note: Note, vc: Seq<u8>, esk2: Seq<u8>|
                    !#[trigger] spec_is_encryption_of(*self, ovk, note, vc, esk2) by {
                    if spec_is_encryption_of(*self, ovk, note, vc, esk2) {
                        lemma_spender_recovers(*self, ovk, note, vc, esk2);
                    }
                }
            }
            return None;
        }
        let owner = match PublicAddress::new(owner_bytes) {
            Ok(a) => a,
            Err(_) => {
                proof {
                    assert forall|note: Note, vc: Seq<u8>, esk2: Seq<u8>|
                        !#[trigger] spec_is_encryption_of(*self, ovk, note, vc, esk2) by {
                        if spec_is_encryption_of(*self, ovk, note, vc, esk2) {
                            lemma_spender_recovers(*self, ovk, note, vc, esk2);
                        }
                    }
                }
                return None;
            },
        };
        let shared = match shared_secret(esk.as_slice(), owner.bytes.as_slice()) {
            Some(s) => s,
            None => {
                proof {
                    assert(false);
                }
                return None;
            },
        };
        let t_key = tag(TAG_ENCRYPTION_KEY);
        let mut key_input = shared;
        let mut epk_copy2 = self.ephemeral_public_key.clone();
        key_input.append(&mut epk_copy2);
        proof {
            assert(key_input@ =~= ecdh_of(esk@, owner.bytes@) + self.ephemeral_public_key@);
        }
        let key = blake2s(t_key.as_slice(), key_input.as_slice());
        proof {
            assert(key@ == spec_spender_key(*self, ovk));
        }
        let cipher = slice_range_to_vec(self.encrypted_note.as_slice(), 0, 136);
        let stored_mac = slice_range_to_vec(self.encrypted_note.as_slice(), 136, 152);
        let mac = compute_mac(&key, &cipher);
        if !bytes_eq(mac.as_slice(), stored_mac.as_slice()) {
            proof {
                assert forall|note: Note, vc: Seq<u8>, esk2: Seq<u8>|
                    !#[trigger] spec_is_encryption_of(*self, ovk, note, vc, esk2) by {
                    if spec_is_encryption_of(*self, ovk, note, vc, esk2) {
                        lemma_spender_recovers(*self, ovk, note, vc, esk2);
                        assert(mac@ == stored_mac@);
                    }
                }
            }
            return None;
        }
        let ks = keystream(&key, ENCRYPTED_NOTE_SIZE);
        let plain = xor_bytes(cipher.as_slice(), ks.as_slice());
        proof {
            assert(plain@ == spec_spender_plaintext(*self, ovk));
        }
        let value_bytes = slice_range_to_vec(plain.as_slice(), 0, 8);
        let randomness = slice_range_to_vec(plain.as_slice(), 8, 40);
        let asset_bytes = slice_range_to_vec(plain.as_slice(), 40, 72);
        let memo_bytes = slice_range_to_vec(plain.as_slice(), 72, 104);
        let sender_bytes = slice_range_to_vec(plain.as_slice(), 104, 136);
        if !scalar_repr_valid(randomness.as_slice()) {
            proof {
                assert forall|note: Note, vc: Seq<u8>, esk2: Seq<u8>|
                    !#[trigger] spec_is_encryption_of(*self, ovk, note, vc, esk2) by {
                    if spec_is_encryption_of(*self, ovk, note, vc, esk2) {
                        lemma_spender_recovers(*self, ovk, note, vc, esk2);
                        lemma_payload_parse(note, plain@);
                    }
                }
            }
            return None;
        }
        let asset_id = match AssetIdentifier::new(asset_bytes) {
            Ok(a) => a,
            Err(_) => {
                proof {
                    assert forall|note: Note, vc: Seq<u8>, esk2: Seq<u8>|
                        !#[trigger] spec_is_encryption_of(*self, ovk, note, vc, esk2) by {
                        if spec_is_encryption_of(*self, ovk, note, vc, esk2) {
                            lemma_spender_recovers(*self, ovk, note, vc, esk2);
                            lemma_payload_parse(note, plain@);
                        }
                    }
                }
                return None;
            },
        };
        let sender = match PublicAddress::new(sender_bytes) {
            Ok(a) => a,
            Err(_) => {
                proof {
                    assert forall|note: Note, vc: Seq<u8>, esk2: Seq<u8>|
                        !#[trigger] spec_is_encryption_of(*self, ovk, note, vc, esk2) by {
                        if spec_is_encryption_of(*self, ovk, note, vc, esk2) {
                            lemma_spender_recovers(*self, ovk, note, vc, esk2);
                            lemma_payload_parse(note, plain@);
                        }
                    }
                }
                return None;
            },
        };
        let value = u64_from_le_bytes(value_bytes.as_slice());
        let note = Note {
            owner,
            value,
            randomness,
            memo: Memo(memo_bytes),
            asset_id,
            sender,
        };
        proof {
            lemma_auto_spec_u64_to_from_le_bytes();
            assert(spec_u64_to_le_bytes(note.value) == plain@.subrange(0, 8));
            assert(spec_encrypted_payload(note) =~= plain@);
            assert forall|note2: Note, vc: Seq<u8>, esk2: Seq<u8>|
                #[trigger] spec_is_encryption_of(*self, ovk, note2, vc, esk2) implies (
                note.owner.bytes@ == note2.owner.bytes@ && note.value == note2.value
                    && note.randomness@ == note2.randomness@ && note.memo.0@ == note2.memo.0@
                    && note.asset_id.bytes@ == note2.asset_id.bytes@ && note.sender.bytes@
                    == note2.sender.bytes@) by {
                lemma_spender_recovers(*self, ovk, note2, vc, esk2);
                lemma_payload_parse(note2, plain@);
            }
        }
        Some(note)
    }
}

} // verus!
