use ironfish_core::assets::AssetIdentifier;
use ironfish_core::keys::SaplingKey;
use ironfish_core::merkle_note::{
    EphemeralKeyPair, MerkleNote, MerkleNoteHash, ValueCommitment, ENCRYPTED_NOTE_LENGTH,
};
use ironfish_core::note::{Memo, Note};
use ironfish_core::IronfishErrorKind;

fn encrypted_note(spender_key: &SaplingKey, note: &Note) -> MerkleNote {
    let value_commitment = ValueCommitment::new(note.value(), note.asset_id().bytes.clone());
    let diffie_hellman_keys = EphemeralKeyPair::new();
    MerkleNote::new(spender_key, note, &value_commitment, &diffie_hellman_keys)
}

#[test]
fn test_merkle_notes_are_equal() {
    let spender_key: SaplingKey = SaplingKey::generate_key();
    let receiver_key: SaplingKey = SaplingKey::generate_key();
    let sender = spender_key.public_address();
    let owner = receiver_key.public_address();
    let asset_id = AssetIdentifier::native();
    let note = Note::new(owner, 42, Memo(vec![0; 32]), asset_id, sender);
    let diffie_hellman_keys = EphemeralKeyPair::new();

    let value_commitment = ValueCommitment::new(note.value(), note.asset_id().bytes.clone());

    let merkle_note =
        MerkleNote::new(&spender_key, &note, &value_commitment, &diffie_hellman_keys);

    let vec = merkle_note.serialize();
    let note1 = MerkleNote::deserialize(&vec).unwrap();
    let note2 = MerkleNote::deserialize(&vec).unwrap();
    assert!(note1.equals(&note2))
}

#[test]
fn test_can_combine_merkle_note_hashes() {
    let arr: [u8; 32] = Default::default();
    let left = MerkleNoteHash::read(&arr).unwrap();
    let right = MerkleNoteHash::read(&arr).unwrap();
    let combined_hash = MerkleNoteHash::combine_hash(1, &left, &right).write();

    let expected = &[
        78, 74, 99, 96, 68, 196, 78, 82, 234, 152, 143, 34, 78, 141, 112, 9, 118, 118, 97, 40,
        219, 166, 197, 144, 93, 94, 133, 118, 88, 127, 57, 32,
    ];
    assert_eq!(&combined_hash, &expected)
}

#[test]
fn test_combine_hash_is_deterministic_and_ordered() {
    let mut a_bytes = [0u8; 32];
    a_bytes[0] = 7;
    let mut b_bytes = [0u8; 32];
    b_bytes[0] = 9;
    let a = MerkleNoteHash::read(&a_bytes).unwrap();
    let b = MerkleNoteHash::read(&b_bytes).unwrap();
    let ab1 = MerkleNoteHash::combine_hash(4, &a, &b).write();
    let ab2 = MerkleNoteHash::combine_hash(4, &a, &b).write();
    assert_eq!(ab1, ab2);
    let ba = MerkleNoteHash::combine_hash(4, &b, &a).write();
    assert_ne!(ab1, ba);
    let other_depth = MerkleNoteHash::combine_hash(5, &a, &b).write();
    assert_ne!(ab1, other_depth);
}

#[test]
fn test_merkle_note_round_trip() {
    let spender_key = SaplingKey::generate_key();
    let note = Note::new(
        spender_key.public_address(),
        1000,
        Memo::from_string("round trip"),
        AssetIdentifier::native(),
        spender_key.public_address(),
    );
    let merkle_note = encrypted_note(&spender_key, &note);
    let bytes = merkle_note.serialize();
    assert_eq!(bytes.len(), ENCRYPTED_NOTE_LENGTH);
    let back = MerkleNote::deserialize(&bytes).unwrap();
    assert!(back.equals(&merkle_note));
    assert_eq!(back.serialize(), bytes);

    let mut truncated = bytes.clone();
    truncated.pop();
    assert_eq!(
        MerkleNote::deserialize(&truncated).unwrap_err().kind,
        IronfishErrorKind::InvalidData
    );
}

#[test]
fn test_decrypt_note_for_owner() {
    let spender_key = SaplingKey::generate_key();
    let receiver_key = SaplingKey::generate_key();
    let note = Note::new(
        receiver_key.public_address(),
        31337,
        Memo::from_string("for you"),
        AssetIdentifier::native(),
        spender_key.public_address(),
    );
    let merkle_note = encrypted_note(&spender_key, &note);

    let decrypted = merkle_note
        .decrypt_note_for_owner(&receiver_key.incoming_view_key())
        .expect("owner can decrypt");
    assert_eq!(decrypted.value(), note.value());
    assert_eq!(decrypted.memo().0, note.memo().0);
    assert_eq!(decrypted.asset_id().bytes, note.asset_id().bytes);
    assert_eq!(decrypted.owner().bytes, note.owner().bytes);
    assert_eq!(decrypted.sender().bytes, note.sender().bytes);
    assert_eq!(decrypted.commitment(), note.commitment());

    let unrelated_key = SaplingKey::generate_key();
    assert!(merkle_note
        .decrypt_note_for_owner(&unrelated_key.incoming_view_key())
        .is_none());
}

#[test]
fn test_decrypt_note_for_spender() {
    let spender_key = SaplingKey::generate_key();
    let receiver_key = SaplingKey::generate_key();
    let note = Note::new(
        receiver_key.public_address(),
        64,
        Memo::from_string("sent away"),
        AssetIdentifier::native(),
        spender_key.public_address(),
    );
    let merkle_note = encrypted_note(&spender_key, &note);

    let decrypted = merkle_note
        .decrypt_note_for_spender(&spender_key.outgoing_view_key())
        .expect("spender can decrypt");
    assert_eq!(decrypted.value(), note.value());
    assert_eq!(decrypted.owner().bytes, note.owner().bytes);

    let unrelated_key = SaplingKey::generate_key();
    assert!(merkle_note
        .decrypt_note_for_spender(&unrelated_key.outgoing_view_key())
        .is_none());
}

#[test]
fn test_combine_hash_from_bytes() {
    let zero = [0u8; 32];
    let combined = MerkleNote::combine_hash(1, &zero, &zero).unwrap();
    let left = MerkleNoteHash::read(&zero).unwrap();
    let right = MerkleNoteHash::read(&zero).unwrap();
    assert_eq!(combined, MerkleNoteHash::combine_hash(1, &left, &right).write());

    let too_large = [0xffu8; 32];
    assert_eq!(
        MerkleNote::combine_hash(1, &too_large, &zero).unwrap_err().kind,
        IronfishErrorKind::InvalidData
    );
    assert_eq!(
        MerkleNote::combine_hash(63, &zero, &zero).unwrap_err().kind,
        IronfishErrorKind::InvalidData
    );
}

#[test]
fn test_node_values_must_be_canonical() {
    let too_large = [0xffu8; 32];
    assert_eq!(
        MerkleNoteHash::read(&too_large).unwrap_err().kind,
        IronfishErrorKind::InvalidData
    );
    let short = [0u8; 31];
    assert_eq!(
        MerkleNoteHash::read(&short).unwrap_err().kind,
        IronfishErrorKind::InvalidData
    );
}

#[test]
fn test_merkle_hash_is_note_commitment() {
    let spender_key = SaplingKey::generate_key();
    let note = Note::new(
        spender_key.public_address(),
        3,
        Memo::from_string(""),
        AssetIdentifier::native(),
        spender_key.public_address(),
    );
    let merkle_note = encrypted_note(&spender_key, &note);
    assert_eq!(merkle_note.merkle_hash().write(), note.commitment());
}
