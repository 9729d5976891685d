use ironfish_core::assets::{Asset, AssetIdentifier, ASSET_LENGTH};
use ironfish_core::keys::SaplingKey;
use ironfish_core::IronfishErrorKind;

#[test]
fn test_asset_derivation_is_deterministic() {
    let creator_key = SaplingKey::generate_key();
    let a = Asset::new(creator_key.public_address(), "token", "metadata").unwrap();
    let b = Asset::new(creator_key.public_address(), "token", "metadata").unwrap();
    assert_eq!(a.id().bytes, b.id().bytes);
    assert_eq!(a.nonce(), b.nonce());

    let other = Asset::new(creator_key.public_address(), "token2", "metadata").unwrap();
    assert_ne!(a.id().bytes, other.id().bytes);
}

#[test]
fn test_asset_fields_are_padded() {
    let creator_key = SaplingKey::generate_key();
    let asset = Asset::new(creator_key.public_address(), "gold", "shiny").unwrap();
    assert_eq!(asset.name().len(), 32);
    assert_eq!(&asset.name()[0..4], b"gold");
    assert!(asset.name()[4..].iter().all(|&b| b == 0));
    assert_eq!(asset.metadata().len(), 96);
    assert_eq!(&asset.metadata()[0..5], b"shiny");
    assert_eq!(asset.creator(), creator_key.public_address().bytes);
}

#[test]
fn test_asset_serialization_round_trip() {
    let creator_key = SaplingKey::generate_key();
    let asset = Asset::new(creator_key.public_address(), "token", "metadata").unwrap();
    let bytes = asset.serialize();
    assert_eq!(bytes.len(), ASSET_LENGTH);
    let back = Asset::deserialize(&bytes).unwrap();
    assert_eq!(back.id().bytes, asset.id().bytes);
    assert_eq!(back.nonce(), asset.nonce());
    assert_eq!(back.name(), asset.name());
    assert_eq!(back.metadata(), asset.metadata());
    assert_eq!(back.serialize(), bytes);

    let mut corrupted = bytes.clone();
    corrupted.truncate(10);
    assert_eq!(
        Asset::deserialize(&corrupted).unwrap_err().kind,
        IronfishErrorKind::InvalidData
    );
}

#[test]
fn test_native_identifier() {
    let native = Asset::native_id();
    assert_eq!(native.len(), 32);
    let id = AssetIdentifier::new(native.clone()).unwrap();
    assert_eq!(id.as_bytes(), &native);
}

#[test]
fn test_asset_identifier_rejects_bad_length() {
    assert_eq!(
        AssetIdentifier::new(vec![0u8; 31]).unwrap_err().kind,
        IronfishErrorKind::InvalidAssetIdentifier
    );
}
