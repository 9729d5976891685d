use ironfish_core::assets::{Asset, AssetIdentifier};
use ironfish_core::errors::IronfishError;
use ironfish_core::keys::SaplingKey;
use ironfish_core::merkle_note::MerkleNoteHash;
use ironfish_core::note::{Memo, Note};
use ironfish_core::transaction::{
    BuilderState, ProposedTransaction, Prover, Transaction, TransactionVersion, PROOF_SIZE,
};
use ironfish_core::witness::{Side, Witness, WitnessNode, TREE_DEPTH};
use ironfish_core::IronfishErrorKind;

struct MockProver;

impl Prover for MockProver {
    fn prove(&mut self, _circuit: &Vec<u8>) -> Result<Vec<u8>, IronfishError> {
        Ok(vec![7u8; PROOF_SIZE])
    }
}

fn witness_for(note: &Note) -> Witness {
    let leaf = note.commitment();
    let mut cur = MerkleNoteHash::read(&leaf).unwrap();
    let zero = MerkleNoteHash::read(&[0u8; 32]).unwrap();
    let mut auth_path = Vec::new();
    for depth in 0..TREE_DEPTH {
        auth_path.push(WitnessNode {
            side: Side::Right,
            hash: zero.write(),
        });
        cur = MerkleNoteHash::combine_hash(depth, &cur, &zero);
    }
    Witness {
        tree_size: 1,
        root_hash: cur.write(),
        auth_path,
    }
}

fn note_for(owner: &SaplingKey, sender: &SaplingKey, value: u64) -> Note {
    Note::new(
        owner.public_address(),
        value,
        Memo::from_string(""),
        AssetIdentifier::native(),
        sender.public_address(),
    )
}

#[test]
fn test_post_with_exact_balance_adds_no_change() {
    let spender = SaplingKey::generate_key();
    let receiver = SaplingKey::generate_key();
    let spent_note = note_for(&spender, &spender, 10);
    let witness = witness_for(&spent_note);
    let output_note = note_for(&receiver, &spender, 8);

    let mut proposed = ProposedTransaction::new(spender, TransactionVersion::latest());
    proposed.add_spend(spent_note, &witness).unwrap();
    proposed.add_output(output_note).unwrap();
    let mut prover = MockProver;
    let transaction = proposed.post(&mut prover, None, 2).unwrap();

    assert_eq!(transaction.fee(), 2);
    assert_eq!(transaction.spends().len(), 1);
    assert_eq!(transaction.outputs().len(), 1);
    assert_eq!(transaction.mints().len(), 0);
    assert_eq!(transaction.burns().len(), 0);
}

#[test]
fn test_post_synthesizes_change_output() {
    let spender = SaplingKey::generate_key();
    let change_key = SaplingKey::generate_key();
    let spent_note = note_for(&spender, &spender, 10);
    let witness = witness_for(&spent_note);

    let mut proposed = ProposedTransaction::new(spender, TransactionVersion::latest());
    proposed.add_spend(spent_note, &witness).unwrap();
    let mut prover = MockProver;
    let transaction = proposed
        .post(&mut prover, Some(change_key.public_address()), 0)
        .unwrap();

    assert_eq!(transaction.fee(), 0);
    assert_eq!(transaction.outputs().len(), 1);
    let change = transaction.outputs()[0]
        .merkle_note()
        .decrypt_note_for_owner(&change_key.incoming_view_key())
        .expect("change output decrypts for the change address");
    assert_eq!(change.value(), 10);
    assert_eq!(change.asset_id().bytes, Asset::native_id());
    assert_eq!(change.owner().bytes, change_key.public_address().bytes);
}

#[test]
fn test_unbalanced_post_without_change_address_fails() {
    let spender = SaplingKey::generate_key();
    let spent_note = note_for(&spender, &spender, 10);
    let witness = witness_for(&spent_note);

    let mut proposed = ProposedTransaction::new(spender, TransactionVersion::latest());
    proposed.add_spend(spent_note, &witness).unwrap();
    let mut prover = MockProver;
    assert_eq!(
        proposed.post(&mut prover, None, 0).unwrap_err().kind,
        IronfishErrorKind::InvalidBalance
    );
}

#[test]
fn test_overspending_fails() {
    let spender = SaplingKey::generate_key();
    let spent_note = note_for(&spender, &spender, 1);
    let witness = witness_for(&spent_note);

    let mut proposed = ProposedTransaction::new(spender, TransactionVersion::latest());
    proposed.add_spend(spent_note, &witness).unwrap();
    let mut prover = MockProver;
    assert_eq!(
        proposed.post(&mut prover, None, 5).unwrap_err().kind,
        IronfishErrorKind::InvalidBalance
    );
}

#[test]
fn test_mint_then_burn_nets_to_zero() {
    let spender = SaplingKey::generate_key();
    let asset = Asset::new(spender.public_address(), "token", "metadata").unwrap();
    let asset_id = AssetIdentifier::new(asset.id().bytes.clone()).unwrap();

    let mut proposed = ProposedTransaction::new(spender, TransactionVersion::latest());
    proposed.add_mint(asset, 5).unwrap();
    proposed.add_burn(asset_id, 5).unwrap();
    let mut prover = MockProver;
    let transaction = proposed.post(&mut prover, None, 0).unwrap();

    assert_eq!(transaction.fee(), 0);
    assert_eq!(transaction.mints().len(), 1);
    assert_eq!(transaction.burns().len(), 1);
    assert_eq!(transaction.outputs().len(), 0);
}

#[test]
fn test_post_miners_fee() {
    let miner = SaplingKey::generate_key();
    let reward = note_for(&miner, &miner, 5);

    let mut proposed = ProposedTransaction::new(miner, TransactionVersion::latest());
    proposed.add_output(reward).unwrap();
    let mut prover = MockProver;
    let transaction = proposed.post_miners_fee(&mut prover).unwrap();

    assert_eq!(transaction.fee(), -5);
    assert_eq!(transaction.spends().len(), 0);
    assert_eq!(transaction.outputs().len(), 1);
}

#[test]
fn test_miners_fee_rejects_spends() {
    let miner = SaplingKey::generate_key();
    let spent_note = note_for(&miner, &miner, 5);
    let witness = witness_for(&spent_note);
    let reward = note_for(&miner, &miner, 5);

    let mut proposed = ProposedTransaction::new(miner, TransactionVersion::latest());
    proposed.add_spend(spent_note, &witness).unwrap();
    proposed.add_output(reward).unwrap();
    let mut prover = MockProver;
    assert_eq!(
        proposed.post_miners_fee(&mut prover).unwrap_err().kind,
        IronfishErrorKind::InvalidMinersFeeTransaction
    );
}

#[test]
fn test_witness_mismatch_is_rejected() {
    let spender = SaplingKey::generate_key();
    let spent_note = note_for(&spender, &spender, 10);
    let mut witness = witness_for(&spent_note);
    witness.root_hash[0] ^= 1;

    let mut proposed = ProposedTransaction::new(spender, TransactionVersion::latest());
    assert_eq!(
        proposed.add_spend(spent_note, &witness).unwrap_err().kind,
        IronfishErrorKind::InconsistentWitness
    );
}

#[test]
fn test_no_additions_after_posting() {
    let spender = SaplingKey::generate_key();
    let receiver = SaplingKey::generate_key();
    let spent_note = note_for(&spender, &spender, 10);
    let witness = witness_for(&spent_note);
    let late_note = note_for(&receiver, &receiver, 1);

    let mut proposed = ProposedTransaction::new(spender, TransactionVersion::latest());
    proposed.add_spend(spent_note, &witness).unwrap();
    let mut prover = MockProver;
    proposed.post(&mut prover, None, 10).unwrap();
    assert!(matches!(proposed.state, BuilderState::Posted));
    assert_eq!(
        proposed.add_output(late_note).unwrap_err().kind,
        IronfishErrorKind::InvalidTransaction
    );
}

#[test]
fn test_transaction_serialization_round_trip() {
    let spender = SaplingKey::generate_key();
    let receiver = SaplingKey::generate_key();
    let spent_note = note_for(&spender, &spender, 10);
    let witness = witness_for(&spent_note);
    let output_note = note_for(&receiver, &spender, 8);

    let mut proposed = ProposedTransaction::new(spender, TransactionVersion::latest());
    proposed.set_expiration(1234);
    proposed.add_spend(spent_note, &witness).unwrap();
    proposed.add_output(output_note).unwrap();
    let mut prover = MockProver;
    let transaction = proposed.post(&mut prover, None, 2).unwrap();

    let bytes = transaction.serialize();
    let back = Transaction::deserialize(&bytes).unwrap();
    assert_eq!(back.fee(), transaction.fee());
    assert_eq!(back.expiration(), 1234);
    assert_eq!(back.spends().len(), 1);
    assert_eq!(back.outputs().len(), 1);
    assert_eq!(back.serialize(), bytes);
    assert_eq!(
        back.transaction_signature_hash(),
        transaction.transaction_signature_hash()
    );
    assert_eq!(transaction.to_hex().len(), 2 * bytes.len());

    let mut truncated = bytes.clone();
    truncated.pop();
    assert_eq!(
        Transaction::deserialize(&truncated).unwrap_err().kind,
        IronfishErrorKind::InvalidData
    );
}

#[test]
fn test_unknown_version_is_rejected() {
    let spender = SaplingKey::generate_key();
    let receiver = SaplingKey::generate_key();
    let spent_note = note_for(&spender, &spender, 3);
    let witness = witness_for(&spent_note);
    let output_note = note_for(&receiver, &spender, 3);

    let mut proposed = ProposedTransaction::new(spender, TransactionVersion::latest());
    proposed.add_spend(spent_note, &witness).unwrap();
    proposed.add_output(output_note).unwrap();
    let mut prover = MockProver;
    let transaction = proposed.post(&mut prover, None, 0).unwrap();

    let mut bytes = transaction.serialize();
    bytes[0] = 9;
    assert_eq!(
        Transaction::deserialize(&bytes).unwrap_err().kind,
        IronfishErrorKind::InvalidTransactionVersion
    );
}

struct ShortProver;

impl Prover for ShortProver {
    fn prove(&mut self, _circuit: &Vec<u8>) -> Result<Vec<u8>, IronfishError> {
        Ok(vec![1u8; 10])
    }
}

#[test]
fn test_wrong_width_proofs_are_rejected() {
    let spender = SaplingKey::generate_key();
    let spent_note = note_for(&spender, &spender, 10);
    let witness = witness_for(&spent_note);

    let mut proposed = ProposedTransaction::new(spender, TransactionVersion::latest());
    proposed.add_spend(spent_note, &witness).unwrap();
    let mut prover = ShortProver;
    assert_eq!(
        proposed.post(&mut prover, None, 10).unwrap_err().kind,
        IronfishErrorKind::InvalidSpendProof
    );

    let miner = SaplingKey::generate_key();
    let reward = note_for(&miner, &miner, 5);
    let mut proposed = ProposedTransaction::new(miner, TransactionVersion::latest());
    proposed.add_output(reward).unwrap();
    let mut prover = ShortProver;
    assert_eq!(
        proposed.post_miners_fee(&mut prover).unwrap_err().kind,
        IronfishErrorKind::InvalidOutputProof
    );
}

struct FailingProver;

impl Prover for FailingProver {
    fn prove(&mut self, _circuit: &Vec<u8>) -> Result<Vec<u8>, IronfishError> {
        Err(IronfishError::new(IronfishErrorKind::RandomnessError))
    }
}

#[test]
fn test_post_can_be_retried_after_prover_failure() {
    let spender = SaplingKey::generate_key();
    let change_key = SaplingKey::generate_key();
    let spent_note = note_for(&spender, &spender, 10);
    let witness = witness_for(&spent_note);

    let mut proposed = ProposedTransaction::new(spender, TransactionVersion::latest());
    proposed.add_spend(spent_note, &witness).unwrap();

    let mut failing = FailingProver;
    let err = proposed
        .post(&mut failing, Some(change_key.public_address()), 0)
        .unwrap_err();
    assert_eq!(err.kind, IronfishErrorKind::BellpersonSynthesis);
    assert_eq!(
        err.source.expect("the prover's error is chained").kind,
        IronfishErrorKind::RandomnessError
    );
    assert!(matches!(proposed.state, BuilderState::Proposed));
    assert_eq!(proposed.outputs.len(), 0);

    let mut prover = MockProver;
    let transaction = proposed
        .post(&mut prover, Some(change_key.public_address()), 0)
        .unwrap();
    assert_eq!(transaction.outputs().len(), 1);
}

#[test]
fn test_oversized_value_is_illegal() {
    let spender = SaplingKey::generate_key();
    let receiver = SaplingKey::generate_key();
    let too_large = note_for(&receiver, &spender, u64::MAX);

    let mut proposed = ProposedTransaction::new(spender, TransactionVersion::latest());
    assert_eq!(
        proposed.add_output(too_large).unwrap_err().kind,
        IronfishErrorKind::IllegalValue
    );
}

#[test]
fn test_mint_with_new_owner_needs_second_version() {
    let spender = SaplingKey::generate_key();
    let new_owner = SaplingKey::generate_key();
    let asset = Asset::new(spender.public_address(), "token", "metadata").unwrap();

    let mut proposed = ProposedTransaction::new(spender, TransactionVersion::V1);
    assert_eq!(
        proposed
            .add_mint_with_new_owner(asset, 5, new_owner.public_address())
            .unwrap_err()
            .kind,
        IronfishErrorKind::InvalidTransactionVersion
    );
}

#[test]
fn test_to_hex_matches_own_encoder() {
    let spender = SaplingKey::generate_key();
    let receiver = SaplingKey::generate_key();
    let spent_note = note_for(&spender, &spender, 4);
    let witness = witness_for(&spent_note);
    let output_note = note_for(&receiver, &spender, 4);

    let mut proposed = ProposedTransaction::new(spender, TransactionVersion::latest());
    proposed.add_spend(spent_note, &witness).unwrap();
    proposed.add_output(output_note).unwrap();
    let mut prover = MockProver;
    let transaction = proposed.post(&mut prover, None, 0).unwrap();

    let bytes = transaction.serialize();
    assert_eq!(
        transaction.to_hex(),
        ironfish_core::serializing::bytes_to_hex(&bytes)
    );
}

#[test]
fn test_spend_description_getters() {
    let spender = SaplingKey::generate_key();
    let spent_note = note_for(&spender, &spender, 10);
    let witness = witness_for(&spent_note);
    let expected_nullifier = spent_note.nullifier(&spender.view_key(), 0);

    let mut proposed = ProposedTransaction::new(spender, TransactionVersion::latest());
    proposed.add_spend(spent_note, &witness).unwrap();
    let mut prover = MockProver;
    let transaction = proposed.post(&mut prover, None, 10).unwrap();

    let spend = &transaction.spends()[0];
    assert_eq!(spend.tree_size(), 1);
    assert_eq!(spend.root_hash(), witness.root_hash);
    assert_eq!(spend.nullifier(), expected_nullifier);
}
