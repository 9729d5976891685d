//! Multi-asset support: content-derived asset identifiers and the asset
//! record that carries a creator, a name, metadata and the nonce its
//! identifier was derived with.

use vstd::prelude::*;
use vstd::string::StringSliceAdditionalSpecFns;

use crate::crypto::{asset_generator_valid, asset_point_check, blake2s, blake2s_of, point_valid};
use crate::errors::{IronfishError, IronfishErrorKind};
use crate::keys::PublicAddress;
use crate::util::{bytes_eq, slice_range_to_vec, spec_pad_truncate, str_to_array};

verus! {

/// Width in bytes of an asset identifier.
pub const ASSET_ID_LENGTH: usize = 32;

/// Width in bytes of an asset's zero-padded name.
pub const NAME_LENGTH: usize = 32;

/// Width in bytes of an asset's zero-padded metadata.
pub const METADATA_LENGTH: usize = 96;

/// Width in bytes of a serialized asset record:
/// creator, name, metadata, nonce and identifier.
pub const ASSET_LENGTH: usize = 193;

/// The BLAKE2s personalization of the asset generator derivation: the
/// ASCII bytes of "ironf_cv".
pub open spec fn spec_asset_personalization() -> Seq<u8> {
    seq![105u8, 114u8, 111u8, 110u8, 102u8, 95u8, 99u8, 118u8]
}

/// Builds the asset generator personalization bytes.
pub fn asset_personalization() -> (r: Vec<u8>)
    ensures
        r@ == spec_asset_personalization(),
{
    let mut v: Vec<u8> = Vec::new();
    v.push(105);
    v.push(114);
    v.push(111);
    v.push(110);
    v.push(102);
    v.push(95);
    v.push(99);
    v.push(118);
    proof {
        assert(v@ =~= spec_asset_personalization());
    }
    v
}

/// The identifier of the native asset of the chain. It is a fixed,
/// protocol-wide constant.
pub open spec fn spec_native_id() -> Seq<u8> {
    seq![
        81u8, 243u8, 58u8, 47u8, 20u8, 249u8, 39u8, 53u8, 229u8, 98u8, 220u8, 101u8, 138u8, 86u8,
        57u8, 39u8, 157u8, 220u8, 163u8, 213u8, 7u8, 154u8, 109u8, 18u8, 66u8, 178u8, 168u8,
        136u8, 169u8, 203u8, 244u8, 76u8,
    ]
}

/// Builds the native asset identifier bytes.
pub fn native_id_bytes() -> (r: Vec<u8>)
    ensures
        r@ == spec_native_id(),
        r@.len() == 32,
{
    let mut v: Vec<u8> = Vec::new();
    v.push(81);
    v.push(243);
    v.push(58);
    v.push(47);
    v.push(20);
    v.push(249);
    v.push(39);
    v.push(53);
    v.push(229);
    v.push(98);
    v.push(220);
    v.push(101);
    v.push(138);
    v.push(86);
    v.push(57);
    v.push(39);
    v.push(157);
    v.push(220);
    v.push(163);
    v.push(213);
    v.push(7);
    v.push(154);
    v.push(109);
    v.push(18);
    v.push(66);
    v.push(178);
    v.push(168);
    v.push(136);
    v.push(169);
    v.push(203);
    v.push(244);
    v.push(76);
    proof {
        assert(v@ =~= spec_native_id());
    }
    v
}

/// The preimage hashed during identifier derivation: creator address,
/// padded name, padded metadata and the one-byte nonce.
pub open spec fn spec_asset_tag(
    creator: Seq<u8>,
    name: Seq<u8>,
    metadata: Seq<u8>,
    nonce: u8,
) -> Seq<u8> {
    creator + name + metadata + seq![nonce]
}

/// The candidate identifier that a nonce produces.
pub open spec fn spec_asset_hash(
    creator: Seq<u8>,
    name: Seq<u8>,
    metadata: Seq<u8>,
    nonce: u8,
) -> Seq<u8> {
    blake2s_of(spec_asset_personalization(), spec_asset_tag(creator, name, metadata, nonce))
}

/// Whether a nonce produces an acceptable identifier: its candidate hash
/// must decode to a usable asset generator point.
pub open spec fn spec_nonce_valid(
    creator: Seq<u8>,
    name: Seq<u8>,
    metadata: Seq<u8>,
    nonce: u8,
) -> bool {
    asset_generator_valid(spec_asset_hash(creator, name, metadata, nonce))
}

/// Maps a derivation preimage to an identifier: the personalized hash of
/// the tag when that hash decodes to a usable generator point, nothing
/// otherwise.
pub fn asset_hash_to_point(tag: &[u8]) -> (r: Option<Vec<u8>>)
    ensures
        r is Some <==> asset_generator_valid(blake2s_of(spec_asset_personalization(), tag@)),
        r matches Some(h) ==> h@ == blake2s_of(spec_asset_personalization(), tag@) && h@.len()
            == 32,
{
    let person = asset_personalization();
    let h = blake2s(person.as_slice(), tag);
    if asset_point_check(h.as_slice()) {
        Some(h)
    } else {
        None
    }
}

/// A 32-byte asset identifier: the fixed native constant, or a derived
/// value that decodes to a usable generator point. Equality is byte
/// equality.
#[derive(Debug, Clone)]
pub struct AssetIdentifier {
    pub bytes: Vec<u8>,
}

impl AssetIdentifier {
    /// A well-formed identifier is 32 bytes and is either the native
    /// constant or decodes to a usable generator point.
    pub open spec fn valid(&self) -> bool {
        self.bytes@.len() == 32 && (self.bytes@ == spec_native_id() || asset_generator_valid(
            self.bytes@,
        ))
    }

    /// Accepts exactly the well-formed identifiers.
    pub fn new(bytes: Vec<u8>) -> (r: Result<AssetIdentifier, IronfishError>)
        ensures
            r is Ok <==> bytes@.len() == 32 && (bytes@ == spec_native_id()
                || asset_generator_valid(bytes@)),
            r matches Ok(a) ==> a.bytes@ == bytes@ && a.valid(),
            r matches Err(e) ==> e.kind == IronfishErrorKind::InvalidAssetIdentifier,
    {
        if bytes.len() != 32 {
            return Err(IronfishError::new(IronfishErrorKind::InvalidAssetIdentifier));
        }
        let native = native_id_bytes();
        if bytes_eq(bytes.as_slice(), native.as_slice()) {
            return Ok(AssetIdentifier { bytes });
        }
        if asset_point_check(bytes.as_slice()) {
            return Ok(AssetIdentifier { bytes });
        }
        Err(IronfishError::new(IronfishErrorKind::InvalidAssetIdentifier))
    }

    /// The identifier of the native asset.
    pub fn native() -> (r: AssetIdentifier)
        ensures
            r.bytes@ == spec_native_id(),
            r.valid(),
    {
        AssetIdentifier { bytes: native_id_bytes() }
    }

    /// The identifier's bytes.
    pub fn as_bytes(&self) -> (r: &Vec<u8>)
        ensures
            r@ == self.bytes@,
    {
        &self.bytes
    }
}

/// A mintable asset: its creator, display name, metadata, and the nonce
/// that made its identifier derivation succeed. The nonce is part of the
/// asset's identity and is recorded on the wire.
#[derive(Debug, Clone)]
pub struct Asset {
    pub creator: PublicAddress,
    pub name: Vec<u8>,
    pub metadata: Vec<u8>,
    pub nonce: u8,
    pub id: AssetIdentifier,
}

impl Asset {
    /// A well-formed asset carries fixed-width fields and an identifier
    /// that really is the derivation of its other fields at its nonce.
    pub open spec fn valid(&self) -> bool {
        &&& self.creator.valid()
        &&& self.name@.len() == 32
        &&& self.metadata@.len() == 96
        &&& self.id.bytes@.len() == 32
        &&& spec_nonce_valid(self.creator.bytes@, self.name@, self.metadata@, self.nonce)
        &&& self.id.bytes@ == spec_asset_hash(
            self.creator.bytes@,
            self.name@,
            self.metadata@,
            self.nonce,
        )
    }

    /// Derives an asset from its creator, name and metadata. The name and
    /// metadata are zero-padded, or silently truncated when oversized. The
    /// nonce search starts at 0 and keeps the first success; only when no
    /// nonce in the one-byte range works does derivation fail.
    pub fn new(creator: PublicAddress, name: &str, metadata: &str) -> (r: Result<
        Asset,
        IronfishError,
    >)
        requires
            creator.valid(),
        ensures
            r is Ok <==> exists|n: u8|
                spec_nonce_valid(
                    creator.bytes@,
                    spec_pad_truncate(name.spec_bytes(), 32),
                    spec_pad_truncate(metadata.spec_bytes(), 96),
                    n,
                ),
            r matches Ok(a) ==> {
                &&& a.creator == creator
                &&& a.name@ == spec_pad_truncate(name.spec_bytes(), 32)
                &&& a.metadata@ == spec_pad_truncate(metadata.spec_bytes(), 96)
                &&& spec_nonce_valid(creator.bytes@, a.name@, a.metadata@, a.nonce)
                &&& forall|m: u8| m < a.nonce ==> !spec_nonce_valid(creator.bytes@, a.name@, a.metadata@, m)
                &&& a.id.bytes@ == spec_asset_hash(creator.bytes@, a.name@, a.metadata@, a.nonce)
                &&& a.valid()
            },
            r matches Err(e) ==> e.kind == IronfishErrorKind::InvalidAssetIdentifier,
    {
        let name_bytes = str_to_array(name, NAME_LENGTH);
        let metadata_bytes = str_to_array(metadata, METADATA_LENGTH);
        let mut nonce: u16 = 0;
        while nonce < 256
            invariant
                nonce <= 256,
                creator.valid(),
                name_bytes@ == spec_pad_truncate(name.spec_bytes(), 32),
                metadata_bytes@ == spec_pad_truncate(metadata.spec_bytes(), 96),
                forall|m: u8|
                    m < nonce ==> !spec_nonce_valid(
                        creator.bytes@,
                        name_bytes@,
                        metadata_bytes@,
                        m,
                    ),
            decreases 256 - nonce,
        {
            let n = nonce as u8;
            match Asset::derive_at_nonce(&creator, &name_bytes, &metadata_bytes, n) {
                Some(id) => {
                    return Ok(
                        Asset {
                            creator,
                            name: name_bytes,
                            metadata: metadata_bytes,
                            nonce: n,
                            id,
                        },
                    );
                },
                None => {},
            }
            nonce = nonce + 1;
        }
        proof {
            assert forall|n: u8|
                !spec_nonce_valid(
                    creator.bytes@,
                    name_bytes@,
                    metadata_bytes@,
                    n,
                ) by {
                assert(n < 256);
            }
        }
        Err(IronfishError::new(IronfishErrorKind::InvalidAssetIdentifier))
    }

    /// Tries the derivation at one specific nonce.
    fn derive_at_nonce(
        creator: &PublicAddress,
        name_bytes: &Vec<u8>,
        metadata_bytes: &Vec<u8>,
        nonce: u8,
    ) -> (r: Option<AssetIdentifier>)
        requires
            creator.valid(),
            name_bytes@.len() == 32,
            metadata_bytes@.len() == 96,
        ensures
            r is Some <==> spec_nonce_valid(creator.bytes@, name_bytes@, metadata_bytes@, nonce),
            r matches Some(id) ==> id.bytes@ == spec_asset_hash(
                creator.bytes@,
                name_bytes@,
                metadata_bytes@,
                nonce,
            ) && id.valid(),
    {
        let mut tag: Vec<u8> = creator.bytes.clone();
        let mut name_part = name_bytes.clone();
        let mut metadata_part = metadata_bytes.clone();
        tag.append(&mut name_part);
        tag.append(&mut metadata_part);
        tag.push(nonce);
        proof {
            assert(tag@ =~= spec_asset_tag(creator.bytes@, name_bytes@, metadata_bytes@, nonce));
        }
        match asset_hash_to_point(tag.as_slice()) {
            Some(h) => Some(AssetIdentifier { bytes: h }),
            None => None,
        }
    }

    /// Rebuilds an asset from its stored fields, re-deriving the
    /// identifier at the recorded nonce.
    pub fn new_with_nonce(
        creator: PublicAddress,
        name: Vec<u8>,
        metadata: Vec<u8>,
        nonce: u8,
    ) -> (r: Result<Asset, IronfishError>)
        requires
            creator.valid(),
            name@.len() == 32,
            metadata@.len() == 96,
        ensures
            r is Ok <==> spec_nonce_valid(creator.bytes@, name@, metadata@, nonce),
            r matches Ok(a) ==> {
                &&& a.creator == creator
                &&& a.name@ == name@
                &&& a.metadata@ == metadata@
                &&& a.nonce == nonce
                &&& a.id.bytes@ == spec_asset_hash(creator.bytes@, name@, metadata@, nonce)
                &&& a.valid()
            },
            r matches Err(e) ==> e.kind == IronfishErrorKind::InvalidAssetIdentifier,
    {
        match Asset::derive_at_nonce(&creator, &name, &metadata, nonce) {
            Some(id) => Ok(Asset { creator, name, metadata, nonce, id }),
            None => Err(IronfishError::new(IronfishErrorKind::InvalidAssetIdentifier)),
        }
    }

    /// The asset's zero-padded metadata bytes.
    pub fn metadata(&self) -> (r: Vec<u8>)
        ensures
            r@ == self.metadata@,
    {
        self.metadata.clone()
    }

    /// The asset's zero-padded name bytes.
    pub fn name(&self) -> (r: Vec<u8>)
        ensures
            r@ == self.name@,
    {
        self.name.clone()
    }

    /// The nonce the identifier derivation succeeded at.
    pub fn nonce(&self) -> (r: u8)
        ensures
            r == self.nonce,
    {
        self.nonce
    }

    /// The creator's address bytes.
    pub fn creator(&self) -> (r: Vec<u8>)
        ensures
            r@ == self.creator.bytes@,
    {
        self.creator.bytes.clone()
    }

    /// The identifier of the native asset, as bytes.
    pub fn native_id() -> (r: Vec<u8>)
        ensures
            r@ == spec_native_id(),
    {
        native_id_bytes()
    }

    /// The asset's identifier.
    pub fn id(&self) -> (r: &AssetIdentifier)
        ensures
            r == &self.id,
    {
        &self.id
    }
}

/// The wire form of an asset record: creator, name, metadata, nonce and
/// derived identifier, in that order.
pub open spec fn spec_asset_bytes(a: Asset) -> Seq<u8> {
    a.creator.bytes@ + a.name@ + a.metadata@ + seq![a.nonce] + a.id.bytes@
}

impl Asset {
    /// Serializes the asset record to its 193-byte wire form.
    pub fn serialize(&self) -> (r: Vec<u8>)
        requires
            self.valid(),
        ensures
            r@ == spec_asset_bytes(*self),
            r@.len() == 193,
    {
        let mut out: Vec<u8> = self.creator.bytes.clone();
        let mut name = self.name.clone();
        let mut metadata = self.metadata.clone();
        let mut id = self.id.bytes.clone();
        out.append(&mut name);
        out.append(&mut metadata);
        out.push(self.nonce);
        out.append(&mut id);
        proof {
            assert(out@ =~= spec_asset_bytes(*self));
            assert(out@.len() == 32 + 32 + 96 + 1 + 32);
        }
        out
    }

    /// Reads an asset record back from its wire form: the input must be
    /// exactly 193 bytes, the creator must be a group point, the nonce
    /// must re-derive an acceptable identifier, and the stored identifier
    /// must match the re-derived one.
    pub fn deserialize(bytes: &[u8]) -> (r: Result<Asset, IronfishError>)
        ensures
            r is Ok <==> (bytes@.len() == 193 && point_valid(bytes@.subrange(0, 32))
                && spec_nonce_valid(
                bytes@.subrange(0, 32),
                bytes@.subrange(32, 64),
                bytes@.subrange(64, 160),
                bytes@[160],
            ) && bytes@.subrange(161, 193) == spec_asset_hash(
                bytes@.subrange(0, 32),
                bytes@.subrange(32, 64),
                bytes@.subrange(64, 160),
                bytes@[160],
            )),
            r matches Ok(a) ==> {
                &&& a.valid()
                &&& spec_asset_bytes(a) == bytes@
            },
            (r matches Err(e) && e.kind == IronfishErrorKind::InvalidData) <==> bytes@.len()
                != 193,
            (r matches Err(e) && e.kind == IronfishErrorKind::InvalidPublicAddress) <==> (
            bytes@.len() == 193 && !point_valid(bytes@.subrange(0, 32))),
            (r matches Err(e) && e.kind == IronfishErrorKind::InvalidAssetIdentifier) <==> (
            bytes@.len() == 193 && point_valid(bytes@.subrange(0, 32)) && !(spec_nonce_valid(
                bytes@.subrange(0, 32),
                bytes@.subrange(32, 64),
                bytes@.subrange(64, 160),
                bytes@[160],
            ) && bytes@.subrange(161, 193) == spec_asset_hash(
                bytes@.subrange(0, 32),
                bytes@.subrange(32, 64),
                bytes@.subrange(64, 160),
                bytes@[160],
            ))),
    {
        if bytes.len() != ASSET_LENGTH {
            return Err(IronfishError::new(IronfishErrorKind::InvalidData));
        }
        let creator_bytes = slice_range_to_vec(bytes, 0, 32);
        let name = slice_range_to_vec(bytes, 32, 64);
        let metadata = slice_range_to_vec(bytes, 64, 160);
        let nonce = bytes[160];
        let id_bytes = slice_range_to_vec(bytes, 161, 193);
        let creator = match PublicAddress::new(creator_bytes) {
            Ok(a) => a,
            Err(e) => { return Err(e) },
        };
        let asset = match Asset::new_with_nonce(creator, name, metadata, nonce) {
            Ok(a) => a,
            Err(e) => { return Err(e) },
        };
        if !bytes_eq(asset.id.bytes.as_slice(), id_bytes.as_slice()) {
            return Err(IronfishError::new(IronfishErrorKind::InvalidAssetIdentifier));
        }
        proof {
            assert(spec_asset_bytes(asset) =~= bytes@);
        }
        Ok(asset)
    }
}

/// The identifier derivation is a function: two least-nonce derivations
/// from the same creator, name and metadata agree on the nonce, and so on
/// the identifier.
pub proof fn lemma_asset_derivation_deterministic(
    creator: Seq<u8>,
    name: Seq<u8>,
    metadata: Seq<u8>,
    n1: u8,
    n2: u8,
)
    requires
        spec_nonce_valid(creator, name, metadata, n1),
        forall|m: u8| m < n1 ==> !spec_nonce_valid(creator, name, metadata, m),
        spec_nonce_valid(creator, name, metadata, n2),
        forall|m: u8| m < n2 ==> !spec_nonce_valid(creator, name, metadata, m),
    ensures
        n1 == n2,
        spec_asset_hash(creator, name, metadata, n1) == spec_asset_hash(
            creator,
            name,
            metadata,
            n2,
        ),
{
    if n1 < n2 {
        assert(!spec_nonce_valid(creator, name, metadata, n1));
    }
    if n2 < n1 {
        assert(!spec_nonce_valid(creator, name, metadata, n2));
    }
}

/// When nonce 0 fails and nonce 1 succeeds, the derivation lands on
/// nonce 1: the fall-through is deterministic.
pub proof fn lemma_asset_nonce_fallthrough(
    creator: Seq<u8>,
    name: Seq<u8>,
    metadata: Seq<u8>,
    n: u8,
)
    requires
        !spec_nonce_valid(creator, name, metadata, 0),
        spec_nonce_valid(creator, name, metadata, 1),
        spec_nonce_valid(creator, name, metadata, n),
        forall|m: u8| m < n ==> !spec_nonce_valid(creator, name, metadata, m),
    ensures
        n == 1,
{
    assert(n != 0);
    if n > 1 {
        assert(!spec_nonce_valid(creator, name, metadata, 1));
    }
}

} // verus!
