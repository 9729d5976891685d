use ironfish_core::assets::AssetIdentifier;
use ironfish_core::keys::SaplingKey;
use ironfish_core::note::{Memo, Note, DECRYPTED_NOTE_LENGTH};
use ironfish_core::util::str_to_array;
use ironfish_core::IronfishErrorKind;

fn sample_note(value: u64, memo: &str) -> Note {
    let owner_key = SaplingKey::generate_key();
    let sender_key = SaplingKey::generate_key();
    Note::new(
        owner_key.public_address(),
        value,
        Memo::from_string(memo),
        AssetIdentifier::native(),
        sender_key.public_address(),
    )
}

#[test]
fn test_note_serialization_round_trip() {
    let note = sample_note(42, "a memo");
    let bytes = note.serialize();
    assert_eq!(bytes.len(), DECRYPTED_NOTE_LENGTH);
    let back = Note::deserialize(&bytes).unwrap();
    assert_eq!(back.value(), note.value());
    assert_eq!(back.memo().0, note.memo().0);
    assert_eq!(back.asset_id().bytes, note.asset_id().bytes);
    assert_eq!(back.owner().bytes, note.owner().bytes);
    assert_eq!(back.sender().bytes, note.sender().bytes);
    assert_eq!(back.commitment(), note.commitment());
    assert_eq!(back.serialize(), bytes);
}

#[test]
fn test_note_deserialize_rejects_bad_length() {
    let note = sample_note(1, "");
    let mut bytes = note.serialize();
    bytes.pop();
    assert_eq!(
        Note::deserialize(&bytes).unwrap_err().kind,
        IronfishErrorKind::InvalidData
    );
    let long = vec![0u8; DECRYPTED_NOTE_LENGTH + 1];
    assert_eq!(
        Note::deserialize(&long).unwrap_err().kind,
        IronfishErrorKind::InvalidData
    );
}

#[test]
fn test_commitments_hide_identical_contents() {
    let owner_key = SaplingKey::generate_key();
    let sender_key = SaplingKey::generate_key();
    let a = Note::new(
        owner_key.public_address(),
        7,
        Memo::from_string("same"),
        AssetIdentifier::native(),
        sender_key.public_address(),
    );
    let b = Note::new(
        owner_key.public_address(),
        7,
        Memo::from_string("same"),
        AssetIdentifier::native(),
        sender_key.public_address(),
    );
    assert_ne!(a.commitment(), b.commitment());
}

#[test]
fn test_nullifier_is_deterministic_and_position_bound() {
    let owner_key = SaplingKey::generate_key();
    let view_key = owner_key.view_key();
    let note = sample_note(5, "nf");
    let nf1 = note.nullifier(&view_key, 3);
    let nf2 = note.nullifier(&view_key, 3);
    assert_eq!(nf1, nf2);
    let nf_other_position = note.nullifier(&view_key, 4);
    assert_ne!(nf1, nf_other_position);
    let other_note = sample_note(5, "nf");
    let nf_other_note = other_note.nullifier(&view_key, 3);
    assert_ne!(nf1, nf_other_note);
}

#[test]
fn test_memo_padding_and_truncation() {
    let short = Memo::from_string("hi");
    assert_eq!(short.0.len(), 32);
    assert_eq!(&short.0[0..2], b"hi");
    assert!(short.0[2..].iter().all(|&b| b == 0));

    let long = Memo::from_string(
        "this memo is much longer than the thirty-two byte limit allows",
    );
    assert_eq!(long.0.len(), 32);
    assert_eq!(&long.0[..], &b"this memo is much longer than th"[..]);
}

#[test]
fn test_str_to_array_widths() {
    let arr = str_to_array("abc", 8);
    assert_eq!(arr, vec![97, 98, 99, 0, 0, 0, 0, 0]);
    let cut = str_to_array("abcdef", 3);
    assert_eq!(cut, vec![97, 98, 99]);
}
