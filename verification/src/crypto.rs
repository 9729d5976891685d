//! The crate's trusted cryptographic boundary.
//!
//! Every call into an outside cryptography crate goes through exactly one
//! wrapper in this module. Each wrapper's contract names the outside
//! function it relies on; results that no short formula can state are given
//! uninterpreted names (`blake2s_of`, `merkle_combine`, ...) that the rest
//! of the crate reasons with.

use vstd::prelude::*;

use group::cofactor::CofactorGroup;
use group::Group;
use group::GroupEncoding;

verus! {

/// The 32-byte BLAKE2s digest of `data` under an 8-byte personalization.
pub uninterp spec fn blake2s_of(personal: Seq<u8>, data: Seq<u8>) -> Seq<u8>;

/// Whether 32 bytes are the canonical representation of a scalar of the
/// prime-order group used for addresses and Diffie-Hellman.
pub uninterp spec fn scalar_canonical(bytes: Seq<u8>) -> bool;

/// The canonical 32-byte scalar that 64 uniform bytes reduce to.
pub uninterp spec fn scalar_of(wide: Seq<u8>) -> Seq<u8>;

/// Whether 32 bytes are the canonical representation of a tree-node value
/// (an element of the field the Merkle hash lives in).
pub uninterp spec fn base_canonical(bytes: Seq<u8>) -> bool;

/// The parent value that the Merkle combination rule assigns to two
/// children at a depth.
pub uninterp spec fn merkle_combine(depth: int, left: Seq<u8>, right: Seq<u8>) -> Seq<u8>;

/// The public point (as 32 bytes) belonging to a canonical secret scalar.
pub uninterp spec fn pub_key_of(secret: Seq<u8>) -> Seq<u8>;

/// Whether 32 bytes decode to a point of the prime-order group.
pub uninterp spec fn point_valid(bytes: Seq<u8>) -> bool;

/// The 32-byte shared secret of a canonical scalar and a valid point.
pub uninterp spec fn ecdh_of(secret: Seq<u8>, point: Seq<u8>) -> Seq<u8>;

/// Whether a 32-byte digest decodes to an acceptable asset generator
/// point: on the curve and not of small order.
pub uninterp spec fn asset_generator_valid(bytes: Seq<u8>) -> bool;

/// Hashes `data` with BLAKE2s under the given 8-byte personalization.
///
/// Relies on `blake2s_simd::Params`: the digest is a function of the
/// personalization and input bytes alone, and is 32 bytes long.
#[verifier::external_body]
pub fn blake2s(personal: &[u8], data: &[u8]) -> (r: Vec<u8>)
    requires
        personal@.len() == 8,
    ensures
        r@ == blake2s_of(personal@, data@),
        r@.len() == 32,
{
    blake2s_simd::Params::new()
        .hash_length(32)
        .personal(personal)
        .to_state()
        .update(data)
        .finalize()
        .as_bytes()
        .to_vec()
}

/// Draws 32 bytes from the process's cryptographically secure generator.
///
/// Relies on `rand::random`: nothing is promised of the value beyond its
/// length, since it is different on every call.
#[verifier::external_body]
pub fn random_bytes_32() -> (r: Vec<u8>)
    ensures
        r@.len() == 32,
{
    rand::random::<[u8; 32]>().to_vec()
}

/// Reduces 64 uniform bytes to a canonical scalar representation.
///
/// Relies on `jubjub::Fr::from_bytes_wide` and `Fr::to_bytes`: the result
/// depends on the input alone and `to_bytes` emits canonical encodings.
#[verifier::external_body]
pub fn scalar_from_wide(wide: &[u8]) -> (r: Vec<u8>)
    requires
        wide@.len() == 64,
    ensures
        r@ == scalar_of(wide@),
        r@.len() == 32,
        scalar_canonical(r@),
{
    let mut buf = [0u8; 64];
    buf.copy_from_slice(wide);
    jubjub::Fr::from_bytes_wide(&buf).to_bytes().to_vec()
}

/// Tests whether 32 bytes are a canonical scalar encoding.
///
/// Relies on `jubjub::Fr::from_bytes`, which accepts exactly the canonical
/// representations.
#[verifier::external_body]
pub fn scalar_repr_valid(bytes: &[u8]) -> (r: bool)
    requires
        bytes@.len() == 32,
    ensures
        r == scalar_canonical(bytes@),
{
    let mut buf = [0u8; 32];
    buf.copy_from_slice(bytes);
    jubjub::Fr::from_bytes(&buf).is_some().into()
}

/// Tests whether 32 bytes are a canonical tree-node value.
///
/// Relies on `bls12_381::Scalar::from_bytes`, which accepts exactly the
/// canonical representations; every value below 2^252 is canonical because
/// the field's modulus is larger than that.
#[verifier::external_body]
pub fn base_repr_valid(bytes: &[u8]) -> (r: bool)
    requires
        bytes@.len() == 32,
    ensures
        r == base_canonical(bytes@),
        bytes@[31] < 16 ==> r,
{
    let mut buf = [0u8; 32];
    buf.copy_from_slice(bytes);
    bls12_381::Scalar::from_bytes(&buf).is_some().into()
}

/// Combines two child tree nodes into their parent at the given depth.
///
/// Relies on `sapling_crypto::merkle_hash`: a pure function of depth and
/// the two children, defined for depths below 63, returning the canonical
/// encoding of a field element.
#[verifier::external_body]
pub fn combine_node(depth: usize, left: &[u8], right: &[u8]) -> (r: Vec<u8>)
    requires
        depth < 63,
        left@.len() == 32,
        right@.len() == 32,
    ensures
        r@ == merkle_combine(depth as int, left@, right@),
        r@.len() == 32,
        base_canonical(r@),
{
    let mut l = [0u8; 32];
    let mut rr = [0u8; 32];
    l.copy_from_slice(left);
    rr.copy_from_slice(right);
    sapling_crypto::merkle_hash(depth, &l, &rr).to_vec()
}

/// Derives the public point of a secret scalar, or nothing when the bytes
/// are not a canonical scalar.
///
/// Relies on `jubjub::Fr::from_bytes`, multiplication of the prime-order
/// generator (`group::Group::generator`) by a scalar, and
/// `group::GroupEncoding::to_bytes`: the point is a function of the scalar
/// alone and its encoding decodes back to a point of the prime-order group.
#[verifier::external_body]
pub fn derive_public(secret: &[u8]) -> (r: Option<Vec<u8>>)
    requires
        secret@.len() == 32,
    ensures
        r is Some <==> scalar_canonical(secret@),
        r matches Some(p) ==> p@ == pub_key_of(secret@) && p@.len() == 32 && point_valid(
            pub_key_of(secret@),
        ),
{
    let mut buf = [0u8; 32];
    buf.copy_from_slice(secret);
    let sk: Option<jubjub::Fr> = jubjub::Fr::from_bytes(&buf).into();
    let sk = sk?;
    let p = jubjub::SubgroupPoint::generator() * sk;
    Some(p.to_bytes().to_vec())
}

/// Computes the Diffie-Hellman shared secret of a secret scalar and a
/// public point, or nothing when either input is malformed.
///
/// Relies on `jubjub::Fr::from_bytes`, `group::GroupEncoding::from_bytes`
/// for the prime-order group, and scalar multiplication. The final clause
/// is the Diffie-Hellman identity: multiplication by two scalars commutes
/// through the group law, so `a * (b * G) == b * (a * G)`.
#[verifier::external_body]
pub fn shared_secret(secret: &[u8], point: &[u8]) -> (r: Option<Vec<u8>>)
    requires
        secret@.len() == 32,
        point@.len() == 32,
    ensures
        r is Some <==> (scalar_canonical(secret@) && point_valid(point@)),
        r matches Some(s) ==> s@ == ecdh_of(secret@, point@) && s@.len() == 32,
        r matches Some(s) ==> forall|other: Seq<u8>|
            scalar_canonical(other) && point@ == pub_key_of(other) ==> ecdh_of(secret@, point@)
                == ecdh_of(other, pub_key_of(secret@)),
{
    let mut sbuf = [0u8; 32];
    let mut pbuf = [0u8; 32];
    sbuf.copy_from_slice(secret);
    pbuf.copy_from_slice(point);
    let sk: Option<jubjub::Fr> = jubjub::Fr::from_bytes(&sbuf).into();
    let sk = sk?;
    let p: Option<jubjub::SubgroupPoint> = jubjub::SubgroupPoint::from_bytes(&pbuf).into();
    let p = p?;
    Some((p * sk).to_bytes().to_vec())
}

/// Tests whether 32 bytes decode to a point of the prime-order group.
///
/// Relies on `group::GroupEncoding::from_bytes` for
/// `jubjub::SubgroupPoint`, which accepts exactly such encodings.
#[verifier::external_body]
pub fn point_check(bytes: &[u8]) -> (r: bool)
    requires
        bytes@.len() == 32,
    ensures
        r == point_valid(bytes@),
{
    let mut buf = [0u8; 32];
    buf.copy_from_slice(bytes);
    jubjub::SubgroupPoint::from_bytes(&buf).is_some().into()
}

/// Tests whether a 32-byte digest is an acceptable asset generator: it
/// must decode to a curve point that does not vanish when its cofactor is
/// cleared.
///
/// Relies on `jubjub::AffinePoint::from_bytes`, conversion to
/// `jubjub::ExtendedPoint`, `group::cofactor::CofactorGroup::clear_cofactor`
/// and `group::Group::is_identity`, composed exactly as the asset
/// generator derivation demands.
#[verifier::external_body]
pub fn asset_point_check(bytes: &[u8]) -> (r: bool)
    requires
        bytes@.len() == 32,
    ensures
        r == asset_generator_valid(bytes@),
{
    let mut buf = [0u8; 32];
    buf.copy_from_slice(bytes);
    let p: Option<jubjub::AffinePoint> = jubjub::AffinePoint::from_bytes(buf).into();
    match p {
        Some(affine) => {
            let extended = jubjub::ExtendedPoint::from(affine);
            let prime = CofactorGroup::clear_cofactor(&extended);
            let identity: bool = prime.is_identity().into();
            !identity
        },
        None => false,
    }
}

} // verus!
