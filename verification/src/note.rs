//! Plaintext value records: a note's owner, value, memo, asset and sender,
//! its hiding commitment, and its position-bound nullifier.

use vstd::bytes::{
    lemma_auto_spec_u64_to_from_le_bytes, spec_u64_from_le_bytes, spec_u64_to_le_bytes,
    u64_from_le_bytes, u64_to_le_bytes,
};
use vstd::prelude::*;
use vstd::string::StringSliceAdditionalSpecFns;

use crate::assets::AssetIdentifier;
use crate::crypto::{
    asset_generator_valid, base_canonical, base_repr_valid, blake2s, blake2s_of, point_valid,
    random_bytes_32, scalar_canonical, scalar_from_wide, scalar_repr_valid,
};
use crate::errors::{IronfishError, IronfishErrorKind};
use crate::keys::{spec_tag, tag, PublicAddress, ViewKey, TAG_COMMITMENT, TAG_NULLIFIER};
use crate::util::{slice_range_to_vec, spec_pad_truncate, str_to_array};

verus! {

/// Width in bytes of a scalar encoding.
pub const SCALAR_SIZE: usize = 32;

/// Width in bytes of a memo.
pub const MEMO_SIZE: usize = 32;

/// Width in bytes of a note's value.
pub const AMOUNT_VALUE_SIZE: usize = 8;

/// Width in bytes of the encrypted note payload:
/// value, randomness, asset identifier, memo and sender address.
pub const ENCRYPTED_NOTE_SIZE: usize = 136;

/// Width in bytes of a serialized note as exposed to callers:
/// randomness, memo, asset identifier, owner, value and sender.
pub const DECRYPTED_NOTE_LENGTH: usize = 168;

/// A fixed-width memo: arbitrary bytes the sender attaches to a note.
#[derive(Debug, Clone)]
pub struct Memo(pub Vec<u8>);

impl Memo {
    /// Builds a memo from a string, zero-padded or silently truncated to
    /// the fixed memo width.
    pub fn from_string(string: &str) -> (r: Memo)
        ensures
            r.0@ == spec_pad_truncate(string.spec_bytes(), 32),
            r.0@.len() == 32,
    {
        Memo(str_to_array(string, MEMO_SIZE))
    }
}

/// A plaintext note: who owns a value of an asset, who sent it, a memo,
/// and the hiding randomness drawn when the note was created.
#[derive(Debug, Clone)]
pub struct Note {
    pub owner: PublicAddress,
    pub value: u64,
    pub randomness: Vec<u8>,
    pub memo: Memo,
    pub asset_id: AssetIdentifier,
    pub sender: PublicAddress,
}

/// The preimage of a note's commitment: every field of the note together
/// with its randomness, in fixed order and width.
pub open spec fn spec_commitment_payload(n: Note) -> Seq<u8> {
    n.owner.bytes@ + spec_u64_to_le_bytes(n.value) + n.randomness@ + n.memo.0@ + n.asset_id.bytes@
        + n.sender.bytes@
}

/// Replaces a digest's top four bits with zeros so that it is always the
/// canonical encoding of a tree-node value.
pub open spec fn spec_mask_to_base(s: Seq<u8>) -> Seq<u8>
    recommends
        s.len() == 32,
{
    s.update(31, (s[31] & 0x0f) as u8)
}

/// A note's commitment: the personalized hash of all fields plus the
/// randomness, masked into the tree-node field. Any change to any field
/// changes the preimage; the randomness hides repeated contents.
pub open spec fn spec_commitment(n: Note) -> Seq<u8> {
    spec_mask_to_base(blake2s_of(spec_tag(TAG_COMMITMENT), spec_commitment_payload(n)))
}

/// The preimage of a nullifier: the note's commitment, the owner's
/// nullifier-deriving key, and the leaf position, in fixed order and
/// width.
pub open spec fn spec_nullifier_payload(
    commitment: Seq<u8>,
    nullifier_deriving_key: Seq<u8>,
    position: u64,
) -> Seq<u8> {
    commitment + nullifier_deriving_key + spec_u64_to_le_bytes(position)
}

/// A note's nullifier at a leaf position, for the holder of a
/// nullifier-deriving key.
pub open spec fn spec_nullifier(
    commitment: Seq<u8>,
    nullifier_deriving_key: Seq<u8>,
    position: u64,
) -> Seq<u8> {
    blake2s_of(
        spec_tag(TAG_NULLIFIER),
        spec_nullifier_payload(commitment, nullifier_deriving_key, position),
    )
}

/// The wire form of a note as exposed to callers: randomness, memo, asset
/// identifier, owner, value and sender.
pub open spec fn spec_note_bytes(n: Note) -> Seq<u8> {
    n.randomness@ + n.memo.0@ + n.asset_id.bytes@ + n.owner.bytes@ + spec_u64_to_le_bytes(n.value)
        + n.sender.bytes@
}

impl Note {
    /// A well-formed note: both addresses decode to group points, the
    /// randomness is a canonical scalar, and the memo and asset
    /// identifier have their fixed widths.
    pub open spec fn valid(&self) -> bool {
        &&& self.owner.valid()
        &&& self.sender.valid()
        &&& self.randomness@.len() == 32
        &&& scalar_canonical(self.randomness@)
        &&& self.memo.0@.len() == 32
        &&& self.asset_id.valid()
    }

    /// Creates a note, drawing fresh hiding randomness: two calls with
    /// identical arguments commit to different values.
    pub fn new(
        owner: PublicAddress,
        value: u64,
        memo: Memo,
        asset_id: AssetIdentifier,
        sender: PublicAddress,
    ) -> (r: Note)
        requires
            owner.valid(),
            sender.valid(),
            memo.0@.len() == 32,
            asset_id.valid(),
        ensures
            r.owner == owner,
            r.value == value,
            r.memo == memo,
            r.asset_id == asset_id,
            r.sender == sender,
            r.valid(),
    {
        let mut wide = random_bytes_32();
        let mut second = random_bytes_32();
        wide.append(&mut second);
        let randomness = scalar_from_wide(wide.as_slice());
        Note { owner, value, randomness, memo, asset_id, sender }
    }

    /// The value this note represents.
    pub fn value(&self) -> (r: u64)
        ensures
            r == self.value,
    {
        self.value
    }

    /// The note's memo.
    pub fn memo(&self) -> (r: Memo)
        ensures
            r.0@ == self.memo.0@,
    {
        Memo(self.memo.0.clone())
    }

    /// The identifier of the asset this note carries.
    pub fn asset_id(&self) -> (r: &AssetIdentifier)
        ensures
            r == &self.asset_id,
    {
        &self.asset_id
    }

    /// The address the note was sent from.
    pub fn sender(&self) -> (r: PublicAddress)
        ensures
            r.bytes@ == self.sender.bytes@,
    {
        PublicAddress { bytes: self.sender.bytes.clone() }
    }

    /// The address that owns the note.
    pub fn owner(&self) -> (r: PublicAddress)
        ensures
            r.bytes@ == self.owner.bytes@,
    {
        PublicAddress { bytes: self.owner.bytes.clone() }
    }

    /// The note's binding, hiding commitment: what the Merkle tree stores
    /// in place of the note itself.
    pub fn commitment(&self) -> (r: Vec<u8>)
        requires
            self.valid(),
        ensures
            r@ == spec_commitment(*self),
            r@.len() == 32,
            r@[31] < 16,
            base_canonical(r@),
    {
        let t = tag(TAG_COMMITMENT);
        let mut payload = self.owner.bytes.clone();
        let mut value_bytes = u64_to_le_bytes(self.value);
        let mut randomness = self.randomness.clone();
        let mut memo = self.memo.0.clone();
        let mut asset = self.asset_id.bytes.clone();
        let mut sender = self.sender.bytes.clone();
        payload.append(&mut value_bytes);
        payload.append(&mut randomness);
        payload.append(&mut memo);
        payload.append(&mut asset);
        payload.append(&mut sender);
        proof {
            assert(payload@ =~= spec_commitment_payload(*self));
        }
        let mut out = blake2s(t.as_slice(), payload.as_slice());
        let last = out[31];
        out[31] = last & 0x0f;
        proof {
            assert(out@ =~= spec_commitment(*self));
            assert((last & 0x0f) < 16) by (bit_vector);
        }
        let canonical = base_repr_valid(out.as_slice());
        proof {
            assert(canonical);
        }
        out
    }

    /// The nullifier this note reveals when spent from a leaf position.
    /// It is a pure function of the commitment, the nullifier-deriving
    /// key and the position, so the network can match double-spends.
    pub fn nullifier(&self, view_key: &ViewKey, position: u64) -> (r: Vec<u8>)
        requires
            self.valid(),
            view_key.valid(),
        ensures
            r@ == spec_nullifier(
                spec_commitment(*self),
                view_key.nullifier_deriving_key@,
                position,
            ),
            r@.len() == 32,
    {
        let t = tag(TAG_NULLIFIER);
        let mut payload = self.commitment();
        let mut key = view_key.nullifier_deriving_key.clone();
        let mut pos = u64_to_le_bytes(position);
        payload.append(&mut key);
        payload.append(&mut pos);
        proof {
            assert(payload@ =~= spec_nullifier_payload(
                spec_commitment(*self),
                view_key.nullifier_deriving_key@,
                position,
            ));
        }
        blake2s(t.as_slice(), payload.as_slice())
    }

    /// Serializes the note to its 168-byte caller-facing form.
    pub fn serialize(&self) -> (r: Vec<u8>)
        requires
            self.valid(),
        ensures
            r@ == spec_note_bytes(*self),
            r@.len() == 168,
    {
        let mut out = self.randomness.clone();
        let mut memo = self.memo.0.clone();
        let mut asset = self.asset_id.bytes.clone();
        let mut owner = self.owner.bytes.clone();
        let mut value_bytes = u64_to_le_bytes(self.value);
        let mut sender = self.sender.bytes.clone();
        out.append(&mut memo);
        out.append(&mut asset);
        out.append(&mut owner);
        out.append(&mut value_bytes);
        out.append(&mut sender);
        proof {
            assert(out@ =~= spec_note_bytes(*self));
            assert(out@.len() == 32 + 32 + 32 + 32 + 8 + 32);
        }
        out
    }

    /// Reads a note back from its 168-byte form, rejecting any input of
    /// another length, a non-canonical randomness scalar, an address that
    /// is no group point, or a malformed asset identifier.
    pub fn deserialize(bytes: &[u8]) -> (r: Result<Note, IronfishError>)
        ensures
            r is Ok <==> (bytes@.len() == 168 && scalar_canonical(bytes@.subrange(0, 32)) && (
            bytes@.subrange(64, 96) == crate::assets::spec_native_id() || asset_generator_valid(
                bytes@.subrange(64, 96),
            )) && point_valid(bytes@.subrange(96, 128)) && point_valid(
                bytes@.subrange(136, 168),
            )),
            r matches Ok(n) ==> {
                &&& n.valid()
                &&& spec_note_bytes(n) == bytes@
            },
            (r matches Err(e) && e.kind == IronfishErrorKind::InvalidData) <==> !(bytes@.len()
                == 168 && scalar_canonical(bytes@.subrange(0, 32))),
            (r matches Err(e) && e.kind == IronfishErrorKind::InvalidAssetIdentifier) <==> (
            bytes@.len() == 168 && scalar_canonical(bytes@.subrange(0, 32)) && !(bytes@.subrange(
                64,
                96,
            ) == crate::assets::spec_native_id() || asset_generator_valid(
                bytes@.subrange(64, 96),
            ))),
            (r matches Err(e) && e.kind == IronfishErrorKind::InvalidPublicAddress) <==> (
            bytes@.len() == 168 && scalar_canonical(bytes@.subrange(0, 32)) && (bytes@.subrange(
                64,
                96,
            ) == crate::assets::spec_native_id() || asset_generator_valid(
                bytes@.subrange(64, 96),
            )) && !(point_valid(bytes@.subrange(96, 128)) && point_valid(
                bytes@.subrange(136, 168),
            ))),
    {
        if bytes.len() != DECRYPTED_NOTE_LENGTH {
            return Err(IronfishError::new(IronfishErrorKind::InvalidData));
        }
        let randomness = slice_range_to_vec(bytes, 0, 32);
        let memo_bytes = slice_range_to_vec(bytes, 32, 64);
        let asset_bytes = slice_range_to_vec(bytes, 64, 96);
        let owner_bytes = slice_range_to_vec(bytes, 96, 128);
        let value_slice = slice_range_to_vec(bytes, 128, 136);
        let sender_bytes = slice_range_to_vec(bytes, 136, 168);
        if !scalar_repr_valid(randomness.as_slice()) {
            return Err(IronfishError::new(IronfishErrorKind::InvalidData));
        }
        let asset_id = match AssetIdentifier::new(asset_bytes) {
            Ok(a) => a,
            Err(e) => { return Err(e) },
        };
        let owner = match PublicAddress::new(owner_bytes) {
            Ok(a) => a,
            Err(e) => { return Err(e) },
        };
        let sender = match PublicAddress::new(sender_bytes) {
            Ok(a) => a,
            Err(e) => { return Err(e) },
        };
        let value = u64_from_le_bytes(value_slice.as_slice());
        let note = Note { owner, value, randomness, memo: Memo(memo_bytes), asset_id, sender };
        proof {
            lemma_auto_spec_u64_to_from_le_bytes();
            assert(spec_u64_to_le_bytes(note.value) == bytes@.subrange(128, 136));
            assert(spec_note_bytes(note) =~= bytes@);
        }
        Ok(note)
    }
}

/// Serialization is injective on well-formed notes: two notes with the
/// same wire bytes agree on every field view and therefore on their
/// commitments. Together with the contracts of `serialize` and
/// `deserialize`, a round trip returns a note identical in all fields and
/// in commitment.
pub proof fn lemma_note_bytes_injective(a: Note, b: Note)
    requires
        a.valid(),
        b.valid(),
        spec_note_bytes(a) == spec_note_bytes(b),
    ensures
        a.randomness@ == b.randomness@,
        a.memo.0@ == b.memo.0@,
        a.asset_id.bytes@ == b.asset_id.bytes@,
        a.owner.bytes@ == b.owner.bytes@,
        a.value == b.value,
        a.sender.bytes@ == b.sender.bytes@,
        spec_commitment(a) == spec_commitment(b),
{
    let sa = spec_note_bytes(a);
    let sb = spec_note_bytes(b);
    lemma_auto_spec_u64_to_from_le_bytes();
    assert(a.randomness@ =~= sa.subrange(0, 32));
    assert(a.memo.0@ =~= sa.subrange(32, 64));
    assert(a.asset_id.bytes@ =~= sa.subrange(64, 96));
    assert(a.owner.bytes@ =~= sa.subrange(96, 128));
    assert(spec_u64_to_le_bytes(a.value) =~= sa.subrange(128, 136));
    assert(a.sender.bytes@ =~= sa.subrange(136, 168));
    assert(b.randomness@ =~= sb.subrange(0, 32));
    assert(b.memo.0@ =~= sb.subrange(32, 64));
    assert(b.asset_id.bytes@ =~= sb.subrange(64, 96));
    assert(b.owner.bytes@ =~= sb.subrange(96, 128));
    assert(spec_u64_to_le_bytes(b.value) =~= sb.subrange(128, 136));
    assert(b.sender.bytes@ =~= sb.subrange(136, 168));
    assert(spec_u64_from_le_bytes(spec_u64_to_le_bytes(a.value)) == a.value);
    assert(spec_u64_from_le_bytes(spec_u64_to_le_bytes(b.value)) == b.value);
    assert(spec_commitment_payload(a) == spec_commitment_payload(b));
}

/// The nullifier preimage determines the commitment, the key and the
/// position: notes at different positions, or with different commitments
/// or keys, feed different preimages to the nullifier hash.
pub proof fn lemma_nullifier_payload_injective(
    c1: Seq<u8>,
    k1: Seq<u8>,
    p1: u64,
    c2: Seq<u8>,
    k2: Seq<u8>,
    p2: u64,
)
    requires
        c1.len() == 32,
        c2.len() == 32,
        k1.len() == 32,
        k2.len() == 32,
    ensures
        spec_nullifier_payload(c1, k1, p1) == spec_nullifier_payload(c2, k2, p2) <==> (c1 == c2
            && k1 == k2 && p1 == p2),
{
    lemma_auto_spec_u64_to_from_le_bytes();
    let s1 = spec_nullifier_payload(c1, k1, p1);
    let s2 = spec_nullifier_payload(c2, k2, p2);
    if s1 == s2 {
        assert(c1 =~= s1.subrange(0, 32));
        assert(k1 =~= s1.subrange(32, 64));
        assert(spec_u64_to_le_bytes(p1) =~= s1.subrange(64, 72));
        assert(c2 =~= s2.subrange(0, 32));
        assert(k2 =~= s2.subrange(32, 64));
        assert(spec_u64_to_le_bytes(p2) =~= s2.subrange(64, 72));
        assert(spec_u64_from_le_bytes(spec_u64_to_le_bytes(p1)) == p1);
        assert(spec_u64_from_le_bytes(spec_u64_to_le_bytes(p2)) == p2);
    }
    if c1 == c2 && k1 == k2 && p1 == p2 {
        assert(s1 =~= s2);
    }
}

} // verus!
