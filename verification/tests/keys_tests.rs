use ironfish_core::keys::{IncomingViewKey, OutgoingViewKey, PublicAddress, SaplingKey, ViewKey};
use ironfish_core::serializing::{bytes_to_hex, hex_to_bytes, hex_to_u8};
use ironfish_core::IronfishErrorKind;

#[test]
fn test_create_new_public_key_to_js() {
    let key1 = SaplingKey::generate_key();
    let key2 = SaplingKey::from_hex(&key1.hex_spending_key()).unwrap();

    assert_eq!(key1.hex_spending_key(), key2.hex_spending_key());
    assert_eq!(key1.view_key().hex_key(), key2.view_key().hex_key());
    assert_eq!(
        key1.incoming_view_key().hex_key(),
        key2.incoming_view_key().hex_key()
    );
    assert_eq!(
        key1.outgoing_view_key().hex_key(),
        key2.outgoing_view_key().hex_key()
    );

    assert_eq!(
        key1.public_address().hex_public_address(),
        key2.public_address().hex_public_address()
    );
}

#[test]
fn test_hex_round_trip() {
    let bytes: Vec<u8> = (0u8..=255).collect();
    let hex = bytes_to_hex(&bytes);
    assert_eq!(hex.len(), 512);
    let back = hex_to_bytes(&hex, 256).unwrap();
    assert_eq!(back, bytes);
}

#[test]
fn test_hex_to_u8_digits() {
    assert_eq!(hex_to_u8(b'0').unwrap(), 0);
    assert_eq!(hex_to_u8(b'9').unwrap(), 9);
    assert_eq!(hex_to_u8(b'a').unwrap(), 10);
    assert_eq!(hex_to_u8(b'f').unwrap(), 15);
    assert_eq!(hex_to_u8(b'A').unwrap(), 10);
    assert_eq!(hex_to_u8(b'F').unwrap(), 15);
    assert_eq!(hex_to_u8(b'g').unwrap_err().kind, IronfishErrorKind::InvalidData);
}

#[test]
fn test_hex_to_bytes_rejects_bad_input() {
    assert_eq!(
        hex_to_bytes("abc", 2).unwrap_err().kind,
        IronfishErrorKind::InvalidData
    );
    assert_eq!(
        hex_to_bytes("zzzz", 2).unwrap_err().kind,
        IronfishErrorKind::InvalidData
    );
    assert_eq!(hex_to_bytes("ff00", 2).unwrap(), vec![255, 0]);
}

#[test]
fn test_public_address_round_trip() {
    let key = SaplingKey::generate_key();
    let address = key.public_address();
    let hex = address.hex_public_address();
    assert_eq!(hex.len(), 64);
    let back = PublicAddress::from_hex(&hex).unwrap();
    assert_eq!(back.bytes, address.bytes);
}

#[test]
fn test_bad_key_encodings_are_rejected() {
    assert_eq!(
        SaplingKey::from_hex("nope").unwrap_err().kind,
        IronfishErrorKind::InvalidSigningKey
    );
    assert_eq!(
        IncomingViewKey::from_hex("xyz").unwrap_err().kind,
        IronfishErrorKind::InvalidViewingKey
    );
    assert_eq!(
        OutgoingViewKey::from_hex("12").unwrap_err().kind,
        IronfishErrorKind::InvalidViewingKey
    );
    assert_eq!(
        ViewKey::from_hex("ab").unwrap_err().kind,
        IronfishErrorKind::InvalidViewingKey
    );
    assert_eq!(
        PublicAddress::from_hex("abc").unwrap_err().kind,
        IronfishErrorKind::InvalidPublicAddress
    );
}

#[test]
fn test_view_key_round_trip() {
    let key = SaplingKey::generate_key();
    let vk = key.view_key();
    let hex = vk.hex_key();
    assert_eq!(hex.len(), 128);
    let back = ViewKey::from_hex(&hex).unwrap();
    assert_eq!(back.authorizing_key, vk.authorizing_key);
    assert_eq!(back.nullifier_deriving_key, vk.nullifier_deriving_key);
}

#[test]
fn test_incoming_view_key_matches_address() {
    let key = SaplingKey::generate_key();
    let ivk = key.incoming_view_key();
    assert_eq!(ivk.public_address().bytes, key.public_address().bytes);
}
