//! Transaction assembly and posting.
//!
//! A [`ProposedTransaction`] accumulates spends, outputs, mints and burns
//! while tracking a per-asset value balance. Posting enforces the balance
//! invariant - spends minus outputs minus fee, plus mint and burn deltas,
//! must net to zero for every asset - synthesizing change outputs where a
//! change address was supplied, and freezes the result into an immutable
//! [`Transaction`].

use vstd::bytes::{
    lemma_auto_spec_u64_to_from_le_bytes, spec_u32_to_le_bytes, spec_u64_to_le_bytes,
    u32_from_le_bytes, u32_to_le_bytes, u64_from_le_bytes, u64_to_le_bytes,
};
use vstd::prelude::*;

use crate::assets::{spec_native_id, Asset, AssetIdentifier};
use crate::crypto::{base_canonical, blake2s, blake2s_of, random_bytes_32};
use crate::errors::{IronfishError, IronfishErrorKind};
use crate::keys::{
    spec_authorizing_key, spec_nullifier_deriving_key, spec_outgoing_view_key,
    spec_spend_authorizing_key, spec_tag, tag, PublicAddress, SaplingKey, TAG_RANDOMIZED_KEY,
    TAG_SIGNATURE_A, TAG_SIGNATURE_B, TAG_SIGNATURE_HASH,
};
use crate::merkle_note::{
    spec_is_encryption_of, EphemeralKeyPair, MerkleNote, MerkleNoteHash, ValueCommitment,
};
use crate::note::{spec_commitment, spec_note_bytes, spec_nullifier, Memo, Note};
use crate::util::{bytes_eq, slice_range_to_vec};
use crate::witness::{spec_position, spec_witness_root, Witness};

verus! {

/// Width in bytes of an opaque proof blob.
pub const PROOF_SIZE: usize = 192;

/// Width in bytes of a binding signature.
pub const TRANSACTION_SIGNATURE_SIZE: usize = 64;

/// Width in bytes of the randomized public key.
pub const TRANSACTION_PUBLIC_KEY_SIZE: usize = 32;

/// Width in bytes of the expiration field.
pub const TRANSACTION_EXPIRATION_SIZE: usize = 4;

/// Width in bytes of the fee field.
pub const TRANSACTION_FEE_SIZE: usize = 8;

/// A transaction format version.
#[derive(Clone, Copy, Debug, PartialEq, Eq, Structural)]
pub enum TransactionVersion {
    V1,
    V2,
}

impl TransactionVersion {
    /// The newest version: the one new transactions are built with.
    pub fn latest() -> (r: TransactionVersion)
        ensures
            r == TransactionVersion::V2,
    {
        TransactionVersion::V2
    }

    /// The version's wire byte.
    pub open spec fn spec_as_u8(self) -> u8 {
        match self {
            TransactionVersion::V1 => 1,
            TransactionVersion::V2 => 2,
        }
    }

    /// Encodes the version as its wire byte.
    pub fn as_u8(&self) -> (r: u8)
        ensures
            r == self.spec_as_u8(),
    {
        match self {
            TransactionVersion::V1 => 1,
            TransactionVersion::V2 => 2,
        }
    }

    /// Decodes a version byte, rejecting unknown versions.
    pub fn from_u8(value: u8) -> (r: Result<TransactionVersion, IronfishError>)
        ensures
            r is Ok <==> (value == 1 || value == 2),
            r matches Ok(v) ==> v.spec_as_u8() == value,
            r matches Err(e) ==> e.kind == IronfishErrorKind::InvalidTransactionVersion,
    {
        if value == 1 {
            Ok(TransactionVersion::V1)
        } else if value == 2 {
            Ok(TransactionVersion::V2)
        } else {
            Err(IronfishError::new(IronfishErrorKind::InvalidTransactionVersion))
        }
    }
}

/// An opaque zero-knowledge proof blob of fixed width. The crate never
/// looks inside one; an outside prover produces it and an outside
/// verifier checks it.
#[derive(Debug, Clone)]
pub struct Proof {
    pub bytes: Vec<u8>,
}

impl Proof {
    /// A well-formed proof blob has the fixed proof width.
    pub open spec fn valid(&self) -> bool {
        self.bytes@.len() == 192
    }

    /// Accepts exactly a full-width proof blob.
    pub fn from_array(v: &[u8]) -> (r: Result<Proof, IronfishError>)
        ensures
            r is Ok <==> v@.len() == 192,
            r matches Ok(p) ==> p.bytes@ == v@ && p.valid(),
            r matches Err(e) ==> e.kind == IronfishErrorKind::InvalidData,
    {
        if v.len() != PROOF_SIZE {
            return Err(IronfishError::new(IronfishErrorKind::InvalidData));
        }
        Ok(Proof { bytes: slice_range_to_vec(v, 0, PROOF_SIZE) })
    }
}

/// A posted spend: the tree size and root the witness spoke for, the
/// spent note's nullifier, and the spend proof.
#[derive(Debug, Clone)]
pub struct SpendDescription {
    pub tree_size: u32,
    pub root_hash: Vec<u8>,
    pub nullifier: Vec<u8>,
    pub proof: Proof,
}

impl SpendDescription {
    /// A well-formed spend description: a canonical 32-byte root, a
    /// 32-byte nullifier and a full-width proof.
    pub open spec fn valid(&self) -> bool {
        &&& self.root_hash@.len() == 32
        &&& base_canonical(self.root_hash@)
        &&& self.nullifier@.len() == 32
        &&& self.proof.valid()
    }

    /// The tree size the witness spoke for.
    pub fn tree_size(&self) -> (r: u32)
        ensures
            r == self.tree_size,
    {
        self.tree_size
    }

    /// The root hash the spent note was authenticated against.
    pub fn root_hash(&self) -> (r: Vec<u8>)
        ensures
            r@ == self.root_hash@,
    {
        self.root_hash.clone()
    }

    /// The spent note's nullifier.
    pub fn nullifier(&self) -> (r: Vec<u8>)
        ensures
            r@ == self.nullifier@,
    {
        self.nullifier.clone()
    }
}

/// A posted output: the encrypted note and its proof.
#[derive(Debug, Clone)]
pub struct OutputDescription {
    pub merkle_note: MerkleNote,
    pub proof: Proof,
}

impl OutputDescription {
    /// A well-formed output description.
    pub open spec fn valid(&self) -> bool {
        self.merkle_note.valid() && self.proof.valid()
    }

    /// The encrypted note this output places in the tree.
    pub fn merkle_note(&self) -> (r: &MerkleNote)
        ensures
            r == &self.merkle_note,
    {
        &self.merkle_note
    }
}

/// A posted mint: the asset, the minted value, the optional new owner,
/// and the mint proof.
#[derive(Debug, Clone)]
pub struct MintDescription {
    pub asset: Asset,
    pub value: u64,
    pub transfer_ownership_to: Option<PublicAddress>,
    pub proof: Proof,
}

impl MintDescription {
    /// A well-formed mint description.
    pub open spec fn valid(&self) -> bool {
        &&& self.asset.valid()
        &&& match self.transfer_ownership_to {
            Some(a) => a.valid(),
            None => true,
        }
        &&& self.proof.valid()
    }
}

/// A posted burn: the asset identifier and the burned value. Burns carry
/// no proof; destroying supply needs no circuit.
#[derive(Debug, Clone)]
pub struct BurnDescription {
    pub asset_id: AssetIdentifier,
    pub value: u64,
}

impl BurnDescription {
    /// A well-formed burn description.
    pub open spec fn valid(&self) -> bool {
        self.asset_id.valid()
    }
}

/// The running per-asset balance of a proposed transaction: an
/// association list from asset identifier to a signed total, one entry
/// per asset id.
#[derive(Debug)]
pub struct ValueBalances {
    pub entries: Vec<(AssetIdentifier, i64)>,
}

/// The balance an association list assigns to an asset id: the first
/// matching entry's total, or zero when absent.
pub open spec fn spec_balance(s: Seq<(AssetIdentifier, i64)>, id: Seq<u8>) -> int
    decreases s.len(),
{
    if s.len() == 0 {
        0
    } else if s[0].0.bytes@ == id {
        s[0].1 as int
    } else {
        spec_balance(s.drop_first(), id)
    }
}

/// An id that appears in no entry has balance zero.
proof fn lemma_balance_absent(s: Seq<(AssetIdentifier, i64)>, id: Seq<u8>)
    requires
        forall|j: int| 0 <= j < s.len() ==> (#[trigger] s[j]).0.bytes@ != id,
    ensures
        spec_balance(s, id) == 0,
    decreases s.len(),
{
    if s.len() > 0 {
        assert(s[0].0.bytes@ != id);
        assert(forall|j: int|
            0 <= j < s.drop_first().len() ==> (#[trigger] s.drop_first()[j]).0.bytes@ != id);
        lemma_balance_absent(s.drop_first(), id);
    }
}

/// Updating the entry at index `k` to one with the same id changes
/// exactly that id's balance.
proof fn lemma_balance_update(
    s: Seq<(AssetIdentifier, i64)>,
    k: int,
    e: (AssetIdentifier, i64),
)
    requires
        0 <= k < s.len(),
        e.0.bytes@ == s[k].0.bytes@,
        forall|i: int, j: int|
            0 <= i < j < s.len() ==> (#[trigger] s[i]).0.bytes@ != (#[trigger] s[j]).0.bytes@,
    ensures
        spec_balance(s.update(k, e), e.0.bytes@) == e.1 as int,
        forall|x: Seq<u8>|
            x != e.0.bytes@ ==> spec_balance(s.update(k, e), x) == #[trigger] spec_balance(s, x),
    decreases s.len(),
{
    let t = s.update(k, e);
    if k == 0 {
        assert(t[0].0.bytes@ == s[0].0.bytes@);
        assert forall|x: Seq<u8>| x != e.0.bytes@ implies spec_balance(t, x) == spec_balance(
            s,
            x,
        ) by {
            assert(t.drop_first() =~= s.drop_first());
        }
    } else {
        assert(t[0] == s[0]);
        assert(t.drop_first() =~= s.drop_first().update(k - 1, e));
        assert(forall|i: int, j: int|
            0 <= i < j < s.drop_first().len() ==> (#[trigger] s.drop_first()[i]).0.bytes@ != (
            #[trigger] s.drop_first()[j]).0.bytes@);
        lemma_balance_update(s.drop_first(), k - 1, e);
        assert(e.0.bytes@ != s[0].0.bytes@);
        assert(spec_balance(t.drop_first(), e.0.bytes@) == e.1 as int);
        assert(t.len() > 0 && t[0].0.bytes@ != e.0.bytes@);
        assert(spec_balance(t, e.0.bytes@) == spec_balance(t.drop_first(), e.0.bytes@));
        assert forall|x: Seq<u8>| x != e.0.bytes@ implies spec_balance(t, x) == spec_balance(
            s,
            x,
        ) by {
            if t[0].0.bytes@ != x {
                assert(spec_balance(t, x) == spec_balance(t.drop_first(), x));
                assert(spec_balance(t.drop_first(), x) == spec_balance(s.drop_first(), x));
                assert(spec_balance(s, x) == spec_balance(s.drop_first(), x));
            } else {
                assert(spec_balance(t, x) == t[0].1 as int);
                assert(spec_balance(s, x) == s[0].1 as int);
            }
        }
    }
}

/// Appending an entry for a fresh id gives it that balance and changes
/// no other.
proof fn lemma_balance_push(s: Seq<(AssetIdentifier, i64)>, e: (AssetIdentifier, i64))
    requires
        forall|j: int| 0 <= j < s.len() ==> (#[trigger] s[j]).0.bytes@ != e.0.bytes@,
    ensures
        spec_balance(s.push(e), e.0.bytes@) == e.1 as int,
        forall|x: Seq<u8>|
            x != e.0.bytes@ ==> spec_balance(s.push(e), x) == #[trigger] spec_balance(s, x),
    decreases s.len(),
{
    if s.len() == 0 {
        assert(s.push(e)[0] == e);
        assert forall|x: Seq<u8>| x != e.0.bytes@ implies spec_balance(s.push(e), x)
            == spec_balance(s, x) by {
            assert(s.push(e).drop_first() =~= s);
            lemma_balance_absent(s, x);
        }
    } else {
        assert(s.push(e)[0] == s[0]);
        assert(s.push(e).drop_first() =~= s.drop_first().push(e));
        lemma_balance_push(s.drop_first(), e);
        assert(s[0].0.bytes@ != e.0.bytes@);
        assert(spec_balance(s.drop_first().push(e), e.0.bytes@) == e.1 as int);
        assert(spec_balance(s.push(e), e.0.bytes@) == spec_balance(s.push(e).drop_first(), e.0.bytes@));
        assert forall|x: Seq<u8>| x != e.0.bytes@ implies spec_balance(s.push(e), x)
            == spec_balance(s, x) by {
            if s[0].0.bytes@ != x {
                assert(spec_balance(s.push(e), x) == spec_balance(s.drop_first().push(e), x));
                assert(spec_balance(s.drop_first().push(e), x) == spec_balance(s.drop_first(), x));
                assert(spec_balance(s, x) == spec_balance(s.drop_first(), x));
            } else {
                assert(spec_balance(s.push(e), x) == s[0].1 as int);
                assert(spec_balance(s, x) == s[0].1 as int);
            }
        }
    }
}

impl ValueBalances {
    /// A well-formed balance list has a valid identifier in every entry
    /// and no id twice.
    pub open spec fn valid(&self) -> bool {
        &&& forall|j: int| 0 <= j < self.entries@.len() ==> (#[trigger] self.entries@[j]).0.valid()
        &&& forall|i: int, j: int|
            0 <= i < j < self.entries@.len() ==> (#[trigger] self.entries@[i]).0.bytes@ != (
            #[trigger] self.entries@[j]).0.bytes@
    }

    /// An empty balance list: every asset nets to zero.
    pub fn new() -> (r: ValueBalances)
        ensures
            r.valid(),
            forall|x: Seq<u8>| spec_balance(r.entries@, x) == 0,
    {
        let r = ValueBalances { entries: Vec::new() };
        proof {
            assert forall|x: Seq<u8>| spec_balance(r.entries@, x) == 0 by {
                lemma_balance_absent(r.entries@, x);
            }
        }
        r
    }

    /// Adds a signed delta to one asset's balance, failing on overflow of
    /// the signed 64-bit total and leaving everything unchanged then.
    pub fn add(&mut self, asset_id: &AssetIdentifier, value: i64) -> (r: Result<
        (),
        IronfishError,
    >)
        requires
            old(self).valid(),
            asset_id.valid(),
        ensures
            final(self).valid(),
            r is Ok <==> i64::MIN <= spec_balance(old(self).entries@, asset_id.bytes@) + value
                <= i64::MAX,
            r is Ok ==> spec_balance(final(self).entries@, asset_id.bytes@) == spec_balance(
                old(self).entries@,
                asset_id.bytes@,
            ) + value,
            r is Ok ==> forall|x: Seq<u8>|
                x != asset_id.bytes@ ==> spec_balance(final(self).entries@, x)
                    == #[trigger] spec_balance(old(self).entries@, x),
            r matches Err(e) ==> e.kind == IronfishErrorKind::IllegalValue && *final(self) == *old(self),
    {
        let n = self.entries.len();
        let mut i: usize = 0;
        while i < n
            invariant
                i <= n,
                n == self.entries@.len(),
                old(self).valid(),
                asset_id.valid(),
                *self == *old(self),
                forall|j: int| 0 <= j < i ==> (#[trigger] self.entries@[j]).0.bytes@ != asset_id.bytes@,
            decreases n - i,
        {
            if bytes_eq(self.entries[i].0.bytes.as_slice(), asset_id.bytes.as_slice()) {
                let bal = self.entries[i].1;
                proof {
                    lemma_balance_found(self.entries@, i as int, asset_id.bytes@);
                }
                if value >= 0 {
                    if bal > i64::MAX - value {
                        return Err(IronfishError::new(IronfishErrorKind::IllegalValue));
                    }
                } else {
                    if bal < i64::MIN - value {
                        return Err(IronfishError::new(IronfishErrorKind::IllegalValue));
                    }
                }
                let entry = (AssetIdentifier { bytes: self.entries[i].0.bytes.clone() }, bal + value);
                proof {
                    lemma_balance_update(self.entries@, i as int, entry);
                }
                self.entries[i] = entry;
                return Ok(());
            }
            i = i + 1;
        }
        let entry = (AssetIdentifier { bytes: asset_id.bytes.clone() }, value);
        proof {
            lemma_balance_absent(self.entries@, asset_id.bytes@);
            lemma_balance_push(self.entries@, entry);
        }
        self.entries.push(entry);
        Ok(())
    }

    /// The native asset's balance: the miner's fee a posted transaction
    /// would pay.
    pub fn fee(&self) -> (r: i64)
        ensures
            r == spec_balance(self.entries@, spec_native_id()),
    {
        let native = crate::assets::native_id_bytes();
        let n = self.entries.len();
        let mut i: usize = 0;
        while i < n
            invariant
                i <= n,
                n == self.entries@.len(),
                native@ == spec_native_id(),
                forall|j: int| 0 <= j < i ==> (#[trigger] self.entries@[j]).0.bytes@ != spec_native_id(),
            decreases n - i,
        {
            if bytes_eq(self.entries[i].0.bytes.as_slice(), native.as_slice()) {
                proof {
                    lemma_balance_found(self.entries@, i as int, spec_native_id());
                }
                return self.entries[i].1;
            }
            i = i + 1;
        }
        proof {
            lemma_balance_absent(self.entries@, spec_native_id());
        }
        0
    }
}

/// When the first `k` entries miss an id and entry `k` carries it, the
/// balance is entry `k`'s total.
proof fn lemma_balance_found(s: Seq<(AssetIdentifier, i64)>, k: int, id: Seq<u8>)
    requires
        0 <= k < s.len(),
        s[k].0.bytes@ == id,
        forall|j: int| 0 <= j < k ==> (#[trigger] s[j]).0.bytes@ != id,
    ensures
        spec_balance(s, id) == s[k].1 as int,
    decreases k,
{
    if k > 0 {
        lemma_balance_found(s.drop_first(), k - 1, id);
    }
}

/// Minting and then burning the same asset id and value within one
/// transaction nets to zero: after the two balance updates, every
/// asset's balance is exactly what it was before them.
pub proof fn lemma_mint_then_burn_nets_zero(
    before: Seq<(AssetIdentifier, i64)>,
    after_mint: Seq<(AssetIdentifier, i64)>,
    after_burn: Seq<(AssetIdentifier, i64)>,
    id: Seq<u8>,
    value: int,
)
    requires
        spec_balance(after_mint, id) == spec_balance(before, id) + value,
        forall|x: Seq<u8>|
            x != id ==> #[trigger] spec_balance(after_mint, x) == spec_balance(before, x),
        spec_balance(after_burn, id) == spec_balance(after_mint, id) - value,
        forall|x: Seq<u8>|
            x != id ==> #[trigger] spec_balance(after_burn, x) == spec_balance(after_mint, x),
    ensures
        forall|x: Seq<u8>| #[trigger] spec_balance(after_burn, x) == spec_balance(before, x),
{
}


/// The builder state: accumulating, circuits handed out, or posted.
#[derive(Clone, Copy, Debug, PartialEq, Eq, Structural)]
pub enum BuilderState {
    Proposed,
    CircuitsBuilt,
    Posted,
}

/// A pending spend: the note, and what its witness said about the tree.
#[derive(Debug, Clone)]
pub struct SpendBuilder {
    pub note: Note,
    pub tree_size: u32,
    pub root_hash: Vec<u8>,
    pub position: u64,
}

impl SpendBuilder {
    /// A well-formed pending spend.
    pub open spec fn valid(&self) -> bool {
        &&& self.note.valid()
        &&& self.root_hash@.len() == 32
        &&& base_canonical(self.root_hash@)
    }
}

/// A pending mint: the asset, the value, and an optional new owner.
#[derive(Debug, Clone)]
pub struct MintBuilder {
    pub asset: Asset,
    pub value: u64,
    pub transfer_ownership_to: Option<PublicAddress>,
}

impl MintBuilder {
    /// A well-formed pending mint.
    pub open spec fn valid(&self) -> bool {
        &&& self.asset.valid()
        &&& match self.transfer_ownership_to {
            Some(a) => a.valid(),
            None => true,
        }
    }
}

/// The value the pending spends contribute to one asset.
pub open spec fn spec_sum_spends(s: Seq<SpendBuilder>, id: Seq<u8>) -> int
    decreases s.len(),
{
    if s.len() == 0 {
        0
    } else {
        spec_sum_spends(s.drop_last(), id) + if s.last().note.asset_id.bytes@ == id {
            s.last().note.value as int
        } else {
            0
        }
    }
}

/// The value the pending outputs take from one asset.
pub open spec fn spec_sum_outputs(s: Seq<Note>, id: Seq<u8>) -> int
    decreases s.len(),
{
    if s.len() == 0 {
        0
    } else {
        spec_sum_outputs(s.drop_last(), id) + if s.last().asset_id.bytes@ == id {
            s.last().value as int
        } else {
            0
        }
    }
}

/// The value the pending mints create of one asset.
pub open spec fn spec_sum_mints(s: Seq<MintBuilder>, id: Seq<u8>) -> int
    decreases s.len(),
{
    if s.len() == 0 {
        0
    } else {
        spec_sum_mints(s.drop_last(), id) + if s.last().asset.id.bytes@ == id {
            s.last().value as int
        } else {
            0
        }
    }
}

/// The value the pending burns destroy of one asset.
pub open spec fn spec_sum_burns(s: Seq<BurnDescription>, id: Seq<u8>) -> int
    decreases s.len(),
{
    if s.len() == 0 {
        0
    } else {
        spec_sum_burns(s.drop_last(), id) + if s.last().asset_id.bytes@ == id {
            s.last().value as int
        } else {
            0
        }
    }
}

/// The net balance one asset would carry: spends minus outputs, plus
/// minted value, minus burned value.
pub open spec fn spec_net_value(
    spends: Seq<SpendBuilder>,
    outputs: Seq<Note>,
    mints: Seq<MintBuilder>,
    burns: Seq<BurnDescription>,
    id: Seq<u8>,
) -> int {
    spec_sum_spends(spends, id) - spec_sum_outputs(outputs, id) + spec_sum_mints(mints, id)
        - spec_sum_burns(burns, id)
}

/// A mutable transaction builder. It tracks, per asset, exactly the net
/// value of what has been added so far; posting turns it into an
/// immutable, signed transaction once that net is balanced.
#[derive(Debug)]
pub struct ProposedTransaction {
    pub version: TransactionVersion,
    pub spender_key: SaplingKey,
    pub spends: Vec<SpendBuilder>,
    pub outputs: Vec<Note>,
    pub mints: Vec<MintBuilder>,
    pub burns: Vec<BurnDescription>,
    pub value_balances: ValueBalances,
    pub expiration: u32,
    pub public_key_randomness: Vec<u8>,
    pub state: BuilderState,
    pub intended_fee: i64,
}

impl ProposedTransaction {
    /// A well-formed builder: every accumulated item is well formed, and
    /// the balance list equals the per-asset net of the accumulated
    /// items. The balance invariant is the heart of the builder.
    pub open spec fn valid(&self) -> bool {
        &&& self.spender_key.valid()
        &&& self.public_key_randomness@.len() == 32
        &&& forall|j: int| 0 <= j < self.spends@.len() ==> (#[trigger] self.spends@[j]).valid()
        &&& forall|j: int| 0 <= j < self.outputs@.len() ==> (#[trigger] self.outputs@[j]).valid()
        &&& forall|j: int| 0 <= j < self.mints@.len() ==> (#[trigger] self.mints@[j]).valid()
        &&& forall|j: int| 0 <= j < self.burns@.len() ==> (#[trigger] self.burns@[j]).valid()
        &&& self.version == TransactionVersion::V1 ==> forall|j: int|
            0 <= j < self.mints@.len() ==> (#[trigger] self.mints@[j]).transfer_ownership_to
                is None
        &&& self.value_balances.valid()
        &&& forall|id: Seq<u8>|
            #[trigger] spec_balance(self.value_balances.entries@, id) == spec_net_value(
                self.spends@,
                self.outputs@,
                self.mints@,
                self.burns@,
                id,
            )
    }

    /// Starts an empty proposed transaction for a spender key.
    pub fn new(spender_key: SaplingKey, version: TransactionVersion) -> (r: ProposedTransaction)
        requires
            spender_key.valid(),
        ensures
            r.version == version,
            r.spender_key == spender_key,
            r.spends@.len() == 0,
            r.outputs@.len() == 0,
            r.mints@.len() == 0,
            r.burns@.len() == 0,
            r.expiration == 0,
            r.state == BuilderState::Proposed,
            r.valid(),
    {
        let r = ProposedTransaction {
            version,
            spender_key,
            spends: Vec::new(),
            outputs: Vec::new(),
            mints: Vec::new(),
            burns: Vec::new(),
            value_balances: ValueBalances::new(),
            expiration: 0,
            public_key_randomness: random_bytes_32(),
            state: BuilderState::Proposed,
            intended_fee: 0,
        };
        r
    }

    /// Sets the block height after which the transaction expires.
    pub fn set_expiration(&mut self, expiration_sequence: u32)
        requires
            old(self).valid(),
        ensures
            final(self).valid(),
            final(self).expiration == expiration_sequence,
            *final(self) == (ProposedTransaction { expiration: expiration_sequence, ..*old(self) }),
    {
        self.expiration = expiration_sequence;
    }

    /// Appends a pending spend after checking the witness really
    /// authenticates the note's commitment against the witness's root.
    /// Fails when the builder is no longer accepting, when the witness
    /// does not match, or when the note's value cannot be accounted.
    pub fn add_spend(&mut self, note: Note, witness: &Witness) -> (r: Result<(), IronfishError>)
        requires
            old(self).valid(),
            note.valid(),
            witness.valid(),
        ensures
            final(self).valid(),
            r is Ok <==> {
                &&& old(self).state == BuilderState::Proposed
                &&& spec_witness_root(spec_commitment(note), witness.auth_path@)
                    == witness.root_hash@
                &&& note.value <= i64::MAX
                &&& i64::MIN <= spec_balance(old(self).value_balances.entries@, note.asset_id.bytes@)
                    + note.value <= i64::MAX
            },
            r is Ok ==> {
                &&& final(self).spends@.len() == old(self).spends@.len() + 1
                &&& final(self).spends@.drop_last() == old(self).spends@
                &&& final(self).spends@.last().note == note
                &&& final(self).spends@.last().tree_size == witness.tree_size
                &&& final(self).spends@.last().root_hash@ == witness.root_hash@
                &&& final(self).spends@.last().position == spec_position(witness.auth_path@)
                &&& final(self).outputs@ == old(self).outputs@
                &&& final(self).mints@ == old(self).mints@
                &&& final(self).burns@ == old(self).burns@
                &&& final(self).state == old(self).state
                &&& final(self).version == old(self).version
                &&& final(self).expiration == old(self).expiration
                &&& final(self).spender_key == old(self).spender_key
                &&& final(self).public_key_randomness == old(self).public_key_randomness
                &&& final(self).intended_fee == old(self).intended_fee
            },
            r matches Err(e) ==> *final(self) == *old(self),
            (r matches Err(e) && e.kind == IronfishErrorKind::InvalidTransaction) <==> old(self).state != BuilderState::Proposed,
            (r matches Err(e) && e.kind == IronfishErrorKind::InconsistentWitness) <==> (old(self).state == BuilderState::Proposed && spec_witness_root(
                spec_commitment(note),
                witness.auth_path@,
            ) != witness.root_hash@),
            (r matches Err(e) && e.kind == IronfishErrorKind::IllegalValue) <==> (old(self).state
                == BuilderState::Proposed && spec_witness_root(
                spec_commitment(note),
                witness.auth_path@,
            ) == witness.root_hash@ && !(note.value <= i64::MAX && i64::MIN <= spec_balance(
                old(self).value_balances.entries@,
                note.asset_id.bytes@,
            ) + note.value <= i64::MAX)),
    {
        if !matches!(self.state, BuilderState::Proposed) {
            return Err(IronfishError::new(IronfishErrorKind::InvalidTransaction));
        }
        let commitment = MerkleNoteHash(note.commitment());
        if !witness.verify(&commitment) {
            return Err(IronfishError::new(IronfishErrorKind::InconsistentWitness));
        }
        if note.value > 0x7fff_ffff_ffff_ffffu64 {
            return Err(IronfishError::new(IronfishErrorKind::IllegalValue));
        }
        let position = witness.position();
        let delta = note.value as i64;
        let ghost pre = *self;
        let sb = SpendBuilder {
            note,
            tree_size: witness.tree_size,
            root_hash: witness.root_hash.clone(),
            position,
        };
        match self.value_balances.add(&sb.note.asset_id, delta) {
            Ok(_) => {},
            Err(e) => {
                proof {
                    assert(*self =~= pre);
                }
                return Err(e);
            },
        }
        proof {
            lemma_sum_push(self.spends@, self.outputs@, self.mints@, self.burns@, sb);
        }
        let ghost mid = *self;
        self.spends.push(sb);
        proof {
            assert(self.spends@.drop_last() =~= pre.spends@);
            assert(self.spends@ == pre.spends@.push(sb));
            assert forall|id: Seq<u8>|
                #[trigger] spec_balance(self.value_balances.entries@, id) == spec_net_value(
                    self.spends@,
                    self.outputs@,
                    self.mints@,
                    self.burns@,
                    id,
                ) by {
                assert(spec_balance(pre.value_balances.entries@, id) == spec_net_value(
                    pre.spends@,
                    pre.outputs@,
                    pre.mints@,
                    pre.burns@,
                    id,
                ));
                if id != sb.note.asset_id.bytes@ {
                    assert(spec_balance(mid.value_balances.entries@, id) == spec_balance(
                        pre.value_balances.entries@,
                        id,
                    ));
                }
            }
        }
        Ok(())
    }

    /// Appends a pending output note. Fails when the builder is no longer
    /// accepting or when the note's value cannot be accounted.
    pub fn add_output(&mut self, note: Note) -> (r: Result<(), IronfishError>)
        requires
            old(self).valid(),
            note.valid(),
        ensures
            final(self).valid(),
            r is Ok <==> {
                &&& old(self).state == BuilderState::Proposed
                &&& note.value <= i64::MAX
                &&& i64::MIN <= spec_balance(old(self).value_balances.entries@, note.asset_id.bytes@)
                    - note.value <= i64::MAX
            },
            r is Ok ==> {
                &&& final(self).outputs@.len() == old(self).outputs@.len() + 1
                &&& final(self).outputs@.drop_last() == old(self).outputs@
                &&& final(self).outputs@.last() == note
                &&& final(self).spends@ == old(self).spends@
                &&& final(self).mints@ == old(self).mints@
                &&& final(self).burns@ == old(self).burns@
                &&& spec_balance(final(self).value_balances.entries@, note.asset_id.bytes@)
                    == spec_balance(old(self).value_balances.entries@, note.asset_id.bytes@)
                    - note.value
                &&& forall|x: Seq<u8>|
                    x != note.asset_id.bytes@ ==> #[trigger] spec_balance(
                        final(self).value_balances.entries@,
                        x,
                    ) == spec_balance(old(self).value_balances.entries@, x)
                &&& final(self).state == old(self).state
                &&& final(self).version == old(self).version
                &&& final(self).expiration == old(self).expiration
                &&& final(self).spender_key == old(self).spender_key
                &&& final(self).public_key_randomness == old(self).public_key_randomness
                &&& final(self).intended_fee == old(self).intended_fee
            },
            r matches Err(e) ==> *final(self) == *old(self),
            (r matches Err(e) && e.kind == IronfishErrorKind::InvalidTransaction) <==> old(self).state != BuilderState::Proposed,
            (r matches Err(e) && e.kind == IronfishErrorKind::IllegalValue) <==> (old(self).state
                == BuilderState::Proposed && !(note.value <= i64::MAX && i64::MIN <= spec_balance(
                old(self).value_balances.entries@,
                note.asset_id.bytes@,
            ) - note.value <= i64::MAX)),
    {
        if !matches!(self.state, BuilderState::Proposed) {
            return Err(IronfishError::new(IronfishErrorKind::InvalidTransaction));
        }
        if note.value > 0x7fff_ffff_ffff_ffffu64 {
            return Err(IronfishError::new(IronfishErrorKind::IllegalValue));
        }
        let delta = note.value as i64;
        let ghost pre = *self;
        let negated = -delta;
        match self.value_balances.add(&note.asset_id, negated) {
            Ok(_) => {},
            Err(e) => {
                proof {
                    assert(*self =~= pre);
                }
                return Err(e);
            },
        }
        proof {
            lemma_sum_output_push(self.spends@, self.outputs@, self.mints@, self.burns@, note);
        }
        let ghost mid = *self;
        self.outputs.push(note);
        proof {
            assert(self.outputs@.drop_last() =~= pre.outputs@);
            assert(self.outputs@ == pre.outputs@.push(note));
            assert forall|id: Seq<u8>|
                #[trigger] spec_balance(self.value_balances.entries@, id) == spec_net_value(
                    self.spends@,
                    self.outputs@,
                    self.mints@,
                    self.burns@,
                    id,
                ) by {
                assert(spec_balance(pre.value_balances.entries@, id) == spec_net_value(
                    pre.spends@,
                    pre.outputs@,
                    pre.mints@,
                    pre.burns@,
                    id,
                ));
                if id != note.asset_id.bytes@ {
                    assert(spec_balance(mid.value_balances.entries@, id) == spec_balance(
                        pre.value_balances.entries@,
                        id,
                    ));
                }
            }
        }
        Ok(())
    }

    /// Appends a pending mint of an asset the spender created.
    pub fn add_mint(&mut self, asset: Asset, value: u64) -> (r: Result<(), IronfishError>)
        requires
            old(self).valid(),
            asset.valid(),
        ensures
            final(self).valid(),
            r is Ok <==> {
                &&& old(self).state == BuilderState::Proposed
                &&& value <= i64::MAX
                &&& i64::MIN <= spec_balance(old(self).value_balances.entries@, asset.id.bytes@)
                    + value <= i64::MAX
            },
            r is Ok ==> {
                &&& final(self).mints@.len() == old(self).mints@.len() + 1
                &&& final(self).mints@.drop_last() == old(self).mints@
                &&& final(self).mints@.last().asset == asset
                &&& final(self).mints@.last().value == value
                &&& final(self).mints@.last().transfer_ownership_to is None
                &&& final(self).spends@ == old(self).spends@
                &&& final(self).outputs@ == old(self).outputs@
                &&& final(self).burns@ == old(self).burns@
                &&& final(self).state == old(self).state
                &&& final(self).version == old(self).version
                &&& final(self).expiration == old(self).expiration
                &&& final(self).spender_key == old(self).spender_key
                &&& final(self).public_key_randomness == old(self).public_key_randomness
                &&& final(self).intended_fee == old(self).intended_fee
                &&& spec_balance(final(self).value_balances.entries@, asset.id.bytes@)
                    == spec_balance(old(self).value_balances.entries@, asset.id.bytes@) + value
                &&& forall|x: Seq<u8>|
                    x != asset.id.bytes@ ==> #[trigger] spec_balance(
                        final(self).value_balances.entries@,
                        x,
                    ) == spec_balance(old(self).value_balances.entries@, x)
            },
            r matches Err(e) ==> *final(self) == *old(self),
            (r matches Err(e) && e.kind == IronfishErrorKind::InvalidTransaction) <==> old(self).state != BuilderState::Proposed,
            (r matches Err(e) && e.kind == IronfishErrorKind::IllegalValue) <==> (old(self).state
                == BuilderState::Proposed && !(value <= i64::MAX && i64::MIN <= spec_balance(
                old(self).value_balances.entries@,
                asset.id.bytes@,
            ) + value <= i64::MAX)),
    {
        self.add_mint_inner(asset, value, None)
    }

    /// Appends a pending mint that also hands the asset to a new owner.
    /// Only transaction versions from the second on can carry the
    /// ownership transfer.
    pub fn add_mint_with_new_owner(
        &mut self,
        asset: Asset,
        value: u64,
        new_owner: PublicAddress,
    ) -> (r: Result<(), IronfishError>)
        requires
            old(self).valid(),
            asset.valid(),
            new_owner.valid(),
        ensures
            final(self).valid(),
            r is Ok <==> {
                &&& old(self).state == BuilderState::Proposed
                &&& old(self).version != TransactionVersion::V1
                &&& value <= i64::MAX
                &&& i64::MIN <= spec_balance(old(self).value_balances.entries@, asset.id.bytes@)
                    + value <= i64::MAX
            },
            r is Ok ==> {
                &&& final(self).mints@.len() == old(self).mints@.len() + 1
                &&& final(self).mints@.drop_last() == old(self).mints@
                &&& final(self).mints@.last().asset == asset
                &&& final(self).mints@.last().value == value
                &&& final(self).mints@.last().transfer_ownership_to matches Some(o)
                    && o.bytes@ == new_owner.bytes@
                &&& final(self).spends@ == old(self).spends@
                &&& final(self).outputs@ == old(self).outputs@
                &&& final(self).burns@ == old(self).burns@
            },
            r matches Err(e) ==> *final(self) == *old(self),
            (r matches Err(e) && e.kind == IronfishErrorKind::InvalidTransactionVersion) <==> old(self).version == TransactionVersion::V1,
            (r matches Err(e) && e.kind == IronfishErrorKind::InvalidTransaction) <==> (old(self).version != TransactionVersion::V1 && old(self).state != BuilderState::Proposed),
            (r matches Err(e) && e.kind == IronfishErrorKind::IllegalValue) <==> (old(self).version
                != TransactionVersion::V1 && old(self).state == BuilderState::Proposed && !(value
                <= i64::MAX && i64::MIN <= spec_balance(
                old(self).value_balances.entries@,
                asset.id.bytes@,
            ) + value <= i64::MAX)),
    {
        if matches!(self.version, TransactionVersion::V1) {
            return Err(IronfishError::new(IronfishErrorKind::InvalidTransactionVersion));
        }
        self.add_mint_inner(asset, value, Some(new_owner))
    }

    /// Appends a pending mint with an optional ownership transfer.
    fn add_mint_inner(
        &mut self,
        asset: Asset,
        value: u64,
        transfer_ownership_to: Option<PublicAddress>,
    ) -> (r: Result<(), IronfishError>)
        requires
            old(self).valid(),
            asset.valid(),
            transfer_ownership_to matches Some(a) ==> a.valid(),
            transfer_ownership_to is Some ==> old(self).version != TransactionVersion::V1,
        ensures
            final(self).valid(),
            r is Ok <==> {
                &&& old(self).state == BuilderState::Proposed
                &&& value <= i64::MAX
                &&& i64::MIN <= spec_balance(old(self).value_balances.entries@, asset.id.bytes@)
                    + value <= i64::MAX
            },
            r is Ok ==> {
                &&& final(self).mints@.len() == old(self).mints@.len() + 1
                &&& final(self).mints@.drop_last() == old(self).mints@
                &&& final(self).mints@.last().asset == asset
                &&& final(self).mints@.last().value == value
                &&& final(self).mints@.last().transfer_ownership_to == transfer_ownership_to
                &&& final(self).spends@ == old(self).spends@
                &&& final(self).outputs@ == old(self).outputs@
                &&& final(self).burns@ == old(self).burns@
                &&& final(self).state == old(self).state
                &&& final(self).version == old(self).version
                &&& final(self).expiration == old(self).expiration
                &&& final(self).spender_key == old(self).spender_key
                &&& final(self).public_key_randomness == old(self).public_key_randomness
                &&& final(self).intended_fee == old(self).intended_fee
                &&& spec_balance(final(self).value_balances.entries@, asset.id.bytes@)
                    == spec_balance(old(self).value_balances.entries@, asset.id.bytes@) + value
                &&& forall|x: Seq<u8>|
                    x != asset.id.bytes@ ==> #[trigger] spec_balance(
                        final(self).value_balances.entries@,
                        x,
                    ) == spec_balance(old(self).value_balances.entries@, x)
            },
            r matches Err(e) ==> *final(self) == *old(self),
            (r matches Err(e) && e.kind == IronfishErrorKind::InvalidTransaction) <==> old(self).state != BuilderState::Proposed,
            (r matches Err(e) && e.kind == IronfishErrorKind::IllegalValue) <==> (old(self).state
                == BuilderState::Proposed && !(value <= i64::MAX && i64::MIN <= spec_balance(
                old(self).value_balances.entries@,
                asset.id.bytes@,
            ) + value <= i64::MAX)),
    {
        if !matches!(self.state, BuilderState::Proposed) {
            return Err(IronfishError::new(IronfishErrorKind::InvalidTransaction));
        }
        if value > 0x7fff_ffff_ffff_ffffu64 {
            return Err(IronfishError::new(IronfishErrorKind::IllegalValue));
        }
        let delta = value as i64;
        let ghost pre = *self;
        let mb = MintBuilder { asset, value, transfer_ownership_to };
        match self.value_balances.add(&mb.asset.id, delta) {
            Ok(_) => {},
            Err(e) => {
                proof {
                    assert(*self =~= pre);
                }
                return Err(e);
            },
        }
        proof {
            lemma_sum_mint_push(self.spends@, self.outputs@, self.mints@, self.burns@, mb);
        }
        let ghost mid = *self;
        self.mints.push(mb);
        proof {
            assert(self.mints@.drop_last() =~= pre.mints@);
            assert(self.mints@ == pre.mints@.push(mb));
            assert forall|id: Seq<u8>|
                #[trigger] spec_balance(self.value_balances.entries@, id) == spec_net_value(
                    self.spends@,
                    self.outputs@,
                    self.mints@,
                    self.burns@,
                    id,
                ) by {
                assert(spec_balance(pre.value_balances.entries@, id) == spec_net_value(
                    pre.spends@,
                    pre.outputs@,
                    pre.mints@,
                    pre.burns@,
                    id,
                ));
                if id != mb.asset.id.bytes@ {
                    assert(spec_balance(mid.value_balances.entries@, id) == spec_balance(
                        pre.value_balances.entries@,
                        id,
                    ));
                }
            }
        }
        Ok(())
    }

    /// Appends a pending burn of some supply of an asset.
    pub fn add_burn(&mut self, asset_id: AssetIdentifier, value: u64) -> (r: Result<
        (),
        IronfishError,
    >)
        requires
            old(self).valid(),
            asset_id.valid(),
        ensures
            final(self).valid(),
            r is Ok <==> {
                &&& old(self).state == BuilderState::Proposed
                &&& value <= i64::MAX
                &&& i64::MIN <= spec_balance(old(self).value_balances.entries@, asset_id.bytes@)
                    - value <= i64::MAX
            },
            r is Ok ==> {
                &&& final(self).burns@.len() == old(self).burns@.len() + 1
                &&& final(self).burns@.drop_last() == old(self).burns@
                &&& final(self).burns@.last().asset_id == asset_id
                &&& final(self).burns@.last().value == value
                &&& final(self).spends@ == old(self).spends@
                &&& final(self).outputs@ == old(self).outputs@
                &&& final(self).mints@ == old(self).mints@
                &&& final(self).state == old(self).state
                &&& final(self).version == old(self).version
                &&& final(self).expiration == old(self).expiration
                &&& final(self).spender_key == old(self).spender_key
                &&& final(self).public_key_randomness == old(self).public_key_randomness
                &&& final(self).intended_fee == old(self).intended_fee
                &&& spec_balance(final(self).value_balances.entries@, asset_id.bytes@)
                    == spec_balance(old(self).value_balances.entries@, asset_id.bytes@) - value
                &&& forall|x: Seq<u8>|
                    x != asset_id.bytes@ ==> #[trigger] spec_balance(
                        final(self).value_balances.entries@,
                        x,
                    ) == spec_balance(old(self).value_balances.entries@, x)
            },
            r matches Err(e) ==> *final(self) == *old(self),
            (r matches Err(e) && e.kind == IronfishErrorKind::InvalidTransaction) <==> old(self).state != BuilderState::Proposed,
            (r matches Err(e) && e.kind == IronfishErrorKind::IllegalValue) <==> (old(self).state
                == BuilderState::Proposed && !(value <= i64::MAX && i64::MIN <= spec_balance(
                old(self).value_balances.entries@,
                asset_id.bytes@,
            ) - value <= i64::MAX)),
    {
        if !matches!(self.state, BuilderState::Proposed) {
            return Err(IronfishError::new(IronfishErrorKind::InvalidTransaction));
        }
        if value > 0x7fff_ffff_ffff_ffffu64 {
            return Err(IronfishError::new(IronfishErrorKind::IllegalValue));
        }
        let delta = value as i64;
        let ghost pre = *self;
        let bd = BurnDescription { asset_id, value };
        let negated = -delta;
        match self.value_balances.add(&bd.asset_id, negated) {
            Ok(_) => {},
            Err(e) => {
                proof {
                    assert(*self =~= pre);
                }
                return Err(e);
            },
        }
        proof {
            lemma_sum_burn_push(self.spends@, self.outputs@, self.mints@, self.burns@, bd);
        }
        let ghost mid = *self;
        self.burns.push(bd);
        proof {
            assert(self.burns@.drop_last() =~= pre.burns@);
            assert(self.burns@ == pre.burns@.push(bd));
            assert forall|id: Seq<u8>|
                #[trigger] spec_balance(self.value_balances.entries@, id) == spec_net_value(
                    self.spends@,
                    self.outputs@,
                    self.mints@,
                    self.burns@,
                    id,
                ) by {
                assert(spec_balance(pre.value_balances.entries@, id) == spec_net_value(
                    pre.spends@,
                    pre.outputs@,
                    pre.mints@,
                    pre.burns@,
                    id,
                ));
                if id != bd.asset_id.bytes@ {
                    assert(spec_balance(mid.value_balances.entries@, id) == spec_balance(
                        pre.value_balances.entries@,
                        id,
                    ));
                }
            }
        }
        Ok(())
    }
}

/// Pushing a pending spend raises its asset's net by its value and
/// leaves every other net alone.
proof fn lemma_sum_push(
    spends: Seq<SpendBuilder>,
    outputs: Seq<Note>,
    mints: Seq<MintBuilder>,
    burns: Seq<BurnDescription>,
    sb: SpendBuilder,
)
    ensures
        forall|id: Seq<u8>|
            #[trigger] spec_net_value(spends.push(sb), outputs, mints, burns, id) == spec_net_value(
                spends,
                outputs,
                mints,
                burns,
                id,
            ) + if sb.note.asset_id.bytes@ == id {
                sb.note.value as int
            } else {
                0
            },
{
    assert forall|id: Seq<u8>|
        #[trigger] spec_sum_spends(spends.push(sb), id) == spec_sum_spends(spends, id) + (
        if sb.note.asset_id.bytes@ == id {
            sb.note.value as int
        } else {
            0
        }) by {
        assert(spends.push(sb).drop_last() =~= spends);
        assert(spends.push(sb).last() == sb);
    }
}

/// Pushing a pending output lowers its asset's net by its value and
/// leaves every other net alone.
proof fn lemma_sum_output_push(
    spends: Seq<SpendBuilder>,
    outputs: Seq<Note>,
    mints: Seq<MintBuilder>,
    burns: Seq<BurnDescription>,
    note: Note,
)
    ensures
        forall|id: Seq<u8>|
            #[trigger] spec_net_value(spends, outputs.push(note), mints, burns, id)
                == spec_net_value(spends, outputs, mints, burns, id) - if note.asset_id.bytes@
                == id {
                note.value as int
            } else {
                0
            },
{
    assert forall|id: Seq<u8>|
        #[trigger] spec_sum_outputs(outputs.push(note), id) == spec_sum_outputs(outputs, id) + (
        if note.asset_id.bytes@ == id {
            note.value as int
        } else {
            0
        }) by {
        assert(outputs.push(note).drop_last() =~= outputs);
        assert(outputs.push(note).last() == note);
    }
}

/// Pushing a pending mint raises its asset's net by its value and leaves
/// every other net alone.
proof fn lemma_sum_mint_push(
    spends: Seq<SpendBuilder>,
    outputs: Seq<Note>,
    mints: Seq<MintBuilder>,
    burns: Seq<BurnDescription>,
    mb: MintBuilder,
)
    ensures
        forall|id: Seq<u8>|
            #[trigger] spec_net_value(spends, outputs, mints.push(mb), burns, id) == spec_net_value(
                spends,
                outputs,
                mints,
                burns,
                id,
            ) + if mb.asset.id.bytes@ == id {
                mb.value as int
            } else {
                0
            },
{
    assert forall|id: Seq<u8>|
        #[trigger] spec_sum_mints(mints.push(mb), id) == spec_sum_mints(mints, id) + (
        if mb.asset.id.bytes@ == id {
            mb.value as int
        } else {
            0
        }) by {
        assert(mints.push(mb).drop_last() =~= mints);
        assert(mints.push(mb).last() == mb);
    }
}

/// Pushing a pending burn lowers its asset's net by its value and leaves
/// every other net alone.
proof fn lemma_sum_burn_push(
    spends: Seq<SpendBuilder>,
    outputs: Seq<Note>,
    mints: Seq<MintBuilder>,
    burns: Seq<BurnDescription>,
    bd: BurnDescription,
)
    ensures
        forall|id: Seq<u8>|
            #[trigger] spec_net_value(spends, outputs, mints, burns.push(bd), id) == spec_net_value(
                spends,
                outputs,
                mints,
                burns,
                id,
            ) - if bd.asset_id.bytes@ == id {
                bd.value as int
            } else {
                0
            },
{
    assert forall|id: Seq<u8>|
        #[trigger] spec_sum_burns(burns.push(bd), id) == spec_sum_burns(burns, id) + (
        if bd.asset_id.bytes@ == id {
            bd.value as int
        } else {
            0
        }) by {
        assert(burns.push(bd).drop_last() =~= burns);
        assert(burns.push(bd).last() == bd);
    }
}


/// What an asset would leave unaccounted if the transaction posted with
/// this fee: its balance, less the fee for the native asset.
pub open spec fn spec_residual(s: Seq<(AssetIdentifier, i64)>, fee: int, id: Seq<u8>) -> int {
    spec_balance(s, id) - if id == spec_native_id() {
        fee
    } else {
        0
    }
}

/// What a correct change list for a balance state and fee looks like:
/// every entry names a well-formed asset with a positive residual equal
/// to the entry's value, no asset appears twice, and every asset with a
/// positive residual appears.
#[verifier::opaque]
pub open spec fn spec_change_list_ok(
    entries: Seq<(AssetIdentifier, i64)>,
    fee: int,
    cl: Seq<(AssetIdentifier, u64)>,
) -> bool {
    &&& forall|k: int|
        0 <= k < cl.len() ==> (#[trigger] cl[k]).0.valid() && cl[k].1 > 0 && cl[k].1 <= i64::MAX
            && cl[k].1 as int == spec_residual(entries, fee, cl[k].0.bytes@) && spec_balance(
            entries,
            cl[k].0.bytes@,
        ) <= i64::MAX
    &&& forall|k: int, l: int|
        0 <= k < l < cl.len() ==> (#[trigger] cl[k]).0.bytes@ != (#[trigger] cl[l]).0.bytes@
    &&& forall|id: Seq<u8>|
        #[trigger] spec_residual(entries, fee, id) > 0 ==> exists|k: int|
            0 <= k < cl.len() && (#[trigger] cl[k]).0.bytes@ == id
}

/// Whether a balance state can post with this fee: no asset's residual
/// is negative, and when no change address is supplied, none is positive
/// either.
#[verifier::opaque]
pub open spec fn spec_can_balance(
    entries: Seq<(AssetIdentifier, i64)>,
    fee: int,
    has_change_address: bool,
) -> bool {
    &&& forall|id: Seq<u8>| #[trigger] spec_residual(entries, fee, id) >= 0
    &&& !has_change_address ==> forall|id: Seq<u8>| #[trigger] spec_residual(entries, fee, id) == 0
}

impl ProposedTransaction {
    /// Computes the change the transaction owes: one entry per asset
    /// whose residual is positive. Fails with `InvalidBalance` when any
    /// asset's residual is negative, or when change is owed and no
    /// change address was supplied.
    #[verifier::rlimit(100)]
    #[verifier::spinoff_prover]
    fn compute_change(&self, fee: i64, has_change_address: bool) -> (r: Result<
        Vec<(AssetIdentifier, u64)>,
        IronfishError,
    >)
        requires
            self.value_balances.valid(),
            fee >= 0,
        ensures
            r is Ok <==> spec_can_balance(self.value_balances.entries@, fee as int, has_change_address),
            r matches Ok(cl) ==> spec_change_list_ok(self.value_balances.entries@, fee as int, cl@),
            r matches Ok(cl) ==> cl@.len() <= self.value_balances.entries@.len(),
            r matches Err(e) ==> e.kind == IronfishErrorKind::InvalidBalance,
    {
        let ghost entries = self.value_balances.entries@;
        let native = crate::assets::native_id_bytes();
        let nb = self.value_balances.fee();
        if (nb as i128) - (fee as i128) < 0 {
            proof {
                reveal(spec_can_balance);
                assert(spec_residual(entries, fee as int, spec_native_id()) < 0);
            }
            return Err(IronfishError::new(IronfishErrorKind::InvalidBalance));
        }
        let mut cl: Vec<(AssetIdentifier, u64)> = Vec::new();
        let n = self.value_balances.entries.len();
        let mut i: usize = 0;
        while i < n
            invariant
                i <= n,
                n == entries.len(),
                entries == self.value_balances.entries@,
                self.value_balances.valid(),
                fee >= 0,
                native@ == spec_native_id(),
                spec_balance(entries, spec_native_id()) - fee >= 0,
                forall|j: int|
                    0 <= j < i ==> spec_residual(entries, fee as int, (#[trigger] entries[j]).0.bytes@)
                        >= 0,
                cl@.len() <= i,
                forall|k: int|
                    0 <= k < cl@.len() ==> (#[trigger] cl@[k]).0.valid() && cl@[k].1 > 0
                        && cl@[k].1 <= i64::MAX && cl@[k].1 as int == spec_residual(
                        entries,
                        fee as int,
                        cl@[k].0.bytes@,
                    ) && spec_balance(entries, cl@[k].0.bytes@) <= i64::MAX,
                forall|k: int|
                    0 <= k < cl@.len() ==> exists|j: int|
                        0 <= j < i && (#[trigger] cl@[k]).0.bytes@ == entries[j].0.bytes@,
                forall|k: int, l: int|
                    0 <= k < l < cl@.len() ==> (#[trigger] cl@[k]).0.bytes@ != (
                    #[trigger] cl@[l]).0.bytes@,
                forall|j: int|
                    0 <= j < i && spec_residual(entries, fee as int, (#[trigger] entries[j]).0.bytes@)
                        > 0 ==> exists|k: int|
                        0 <= k < cl@.len() && (#[trigger] cl@[k]).0.bytes@ == entries[j].0.bytes@,
            decreases n - i,
        {
            let entry_id = AssetIdentifier { bytes: self.value_balances.entries[i].0.bytes.clone() };
            let entry_value = self.value_balances.entries[i].1;
            proof {
                assert forall|j: int| 0 <= j < i implies (#[trigger] entries[j]).0.bytes@
                    != entries[i as int].0.bytes@ by {
                    assert(entries[j].0.bytes@ != entries[i as int].0.bytes@);
                }
                lemma_balance_found(entries, i as int, entries[i as int].0.bytes@);
            }
            let is_native = bytes_eq(entry_id.bytes.as_slice(), native.as_slice());
            let residual: i128 = (entry_value as i128) - (if is_native {
                fee as i128
            } else {
                0i128
            });
            proof {
                assert(residual == spec_residual(entries, fee as int, entry_id.bytes@));
            }
            if residual < 0 {
                proof {
                    reveal(spec_can_balance);
                }
                return Err(IronfishError::new(IronfishErrorKind::InvalidBalance));
            }
            let ghost pushed = residual > 0;
            let ghost old_cl = cl@;
            if residual > 0 {
                proof {
                    assert(0 <= residual <= u64::MAX);
                }
                cl.push((entry_id, residual as u64));
                proof {
                    assert(cl@.last().0.bytes@ == entries[i as int].0.bytes@);
                    assert forall|k: int, l: int| 0 <= k < l < cl@.len() implies (
                    #[trigger] cl@[k]).0.bytes@ != (#[trigger] cl@[l]).0.bytes@ by {
                        if l == cl@.len() - 1 {
                            let j = choose|j: int|
                                0 <= j < i && (#[trigger] old_cl[k]).0.bytes@
                                    == entries[j].0.bytes@;
                            assert(entries[j].0.bytes@ != entries[i as int].0.bytes@);
                        }
                    }
                    assert forall|k: int| 0 <= k < cl@.len() implies exists|j: int|
                        0 <= j < i + 1 && (#[trigger] cl@[k]).0.bytes@ == entries[j].0.bytes@ by {
                        if k < old_cl.len() {
                            let j = choose|j: int|
                                0 <= j < i && (#[trigger] old_cl[k]).0.bytes@
                                    == entries[j].0.bytes@;
                            assert(0 <= j < i + 1 && cl@[k].0.bytes@ == entries[j].0.bytes@);
                        } else {
                            assert(0 <= i < i + 1 && cl@[k].0.bytes@ == entries[i as int].0.bytes@);
                        }
                    }
                }
            }
            proof {
                assert forall|j: int|
                    0 <= j < i + 1 && spec_residual(
                        entries,
                        fee as int,
                        (#[trigger] entries[j]).0.bytes@,
                    ) > 0 implies exists|k: int|
                    0 <= k < cl@.len() && (#[trigger] cl@[k]).0.bytes@ == entries[j].0.bytes@ by {
                    if j == i {
                        assert(pushed);
                        assert(0 <= cl@.len() - 1 < cl@.len() && cl@[cl@.len() - 1].0.bytes@
                            == entries[i as int].0.bytes@);
                    } else {
                        let k = choose|k: int|
                            0 <= k < old_cl.len() && (#[trigger] old_cl[k]).0.bytes@
                                == entries[j].0.bytes@;
                        assert(0 <= k < cl@.len() && cl@[k].0.bytes@ == entries[j].0.bytes@);
                    }
                }
            }
            i = i + 1;
        }
        if !has_change_address && cl.len() > 0 {
            proof {
                reveal(spec_can_balance);
                assert(spec_residual(entries, fee as int, cl@[0].0.bytes@) > 0);
            }
            return Err(IronfishError::new(IronfishErrorKind::InvalidBalance));
        }
        proof {
            reveal(spec_can_balance);
            reveal(spec_change_list_ok);
            assert forall|id: Seq<u8>|
                #[trigger] spec_residual(entries, fee as int, id) >= 0 by {
                if id == spec_native_id() {
                } else if exists|j: int| 0 <= j < n && (#[trigger] entries[j]).0.bytes@ == id {
                    let j = choose|j: int| 0 <= j < n && (#[trigger] entries[j]).0.bytes@ == id;
                    assert forall|j2: int| 0 <= j2 < j implies (#[trigger] entries[j2]).0.bytes@
                        != id by {
                        assert(entries[j2].0.bytes@ != entries[j].0.bytes@);
                    }
                    lemma_balance_found(entries, j, id);
                    assert(spec_residual(entries, fee as int, entries[j].0.bytes@) >= 0);
                } else {
                    assert(forall|j: int| 0 <= j < n ==> (#[trigger] entries[j]).0.bytes@ != id);
                    lemma_balance_absent(entries, id);
                }
            }
            assert forall|id: Seq<u8>|
                #[trigger] spec_residual(entries, fee as int, id) > 0 implies exists|k: int|
                0 <= k < cl@.len() && (#[trigger] cl@[k]).0.bytes@ == id by {
                if exists|j: int| 0 <= j < n && (#[trigger] entries[j]).0.bytes@ == id {
                    let j = choose|j: int| 0 <= j < n && (#[trigger] entries[j]).0.bytes@ == id;
                    assert(spec_residual(entries, fee as int, entries[j].0.bytes@) > 0);
                } else {
                    assert(forall|j: int| 0 <= j < n ==> (#[trigger] entries[j]).0.bytes@ != id);
                    lemma_balance_absent(entries, id);
                    assert(spec_balance(entries, id) == 0);
                }
            }
            if !has_change_address {
                assert forall|id: Seq<u8>|
                    #[trigger] spec_residual(entries, fee as int, id) == 0 by {
                    if spec_residual(entries, fee as int, id) > 0 {
                        assert(exists|k: int|
                            0 <= k < cl@.len() && (#[trigger] cl@[k]).0.bytes@ == id);
                    }
                }
            }
        }
        Ok(cl)
    }
}

/// The circuit inputs of one pending spend: tree size, root, position and
/// the note commitment.
pub open spec fn spec_spend_circuit(sb: SpendBuilder) -> Seq<u8> {
    spec_u32_to_le_bytes(sb.tree_size) + sb.root_hash@ + spec_u64_to_le_bytes(sb.position)
        + spec_commitment(sb.note)
}

/// The circuit inputs of one pending output: the full note.
pub open spec fn spec_output_circuit(n: Note) -> Seq<u8> {
    spec_note_bytes(n)
}

/// The circuit inputs of one pending mint: the asset record and the
/// minted value.
pub open spec fn spec_mint_circuit(mb: MintBuilder) -> Seq<u8> {
    crate::assets::spec_asset_bytes(mb.asset) + spec_u64_to_le_bytes(mb.value)
}

/// The circuit inputs and ephemeral key material a posting needs: what an
/// out-of-process prover consumes, one blob per spend, output and mint.
#[derive(Debug)]
pub struct TransactionCircuits {
    pub spend_circuits: Vec<Vec<u8>>,
    pub output_circuits: Vec<Vec<u8>>,
    pub output_diffie_hellman_keys: Vec<EphemeralKeyPair>,
    pub mint_asset_circuits: Vec<Vec<u8>>,
}

impl TransactionCircuits {
    /// The spend circuit input blobs.
    pub fn spend_circuits(&self) -> (r: &Vec<Vec<u8>>)
        ensures
            r == &self.spend_circuits,
    {
        &self.spend_circuits
    }

    /// The output circuit input blobs.
    pub fn output_circuits(&self) -> (r: &Vec<Vec<u8>>)
        ensures
            r == &self.output_circuits,
    {
        &self.output_circuits
    }

    /// The mint circuit input blobs.
    pub fn mint_circuits(&self) -> (r: &Vec<Vec<u8>>)
        ensures
            r == &self.mint_asset_circuits,
    {
        &self.mint_asset_circuits
    }

    /// The ephemeral key pairs, one per output, serialized.
    pub fn output_diffie_hellman_keys(&self) -> (r: Vec<Vec<u8>>)
        ensures
            r@.len() == self.output_diffie_hellman_keys@.len(),
            forall|k: int|
                0 <= k < r@.len() ==> #[trigger] r@[k]@ == self.output_diffie_hellman_keys@[k].secret@
                    + self.output_diffie_hellman_keys@[k].public@,
    {
        let mut out: Vec<Vec<u8>> = Vec::new();
        let mut i: usize = 0;
        let n = self.output_diffie_hellman_keys.len();
        while i < n
            invariant
                i <= n,
                n == self.output_diffie_hellman_keys@.len(),
                out@.len() == i,
                forall|k: int|
                    0 <= k < i ==> #[trigger] out@[k]@
                        == self.output_diffie_hellman_keys@[k].secret@
                        + self.output_diffie_hellman_keys@[k].public@,
            decreases n - i,
        {
            out.push(self.output_diffie_hellman_keys[i].to_bytes_le());
            i = i + 1;
        }
        out
    }
}


impl ProposedTransaction {
    /// Builds the plain change notes a change list calls for, all owned
    /// by the change address and sent from the spender.
    fn make_change_notes(
        cl: &Vec<(AssetIdentifier, u64)>,
        change_address: &PublicAddress,
        sender: &PublicAddress,
    ) -> (r: Vec<Note>)
        requires
            change_address.valid(),
            sender.valid(),
            forall|k: int| 0 <= k < cl@.len() ==> (#[trigger] cl@[k]).0.valid(),
        ensures
            r@.len() == cl@.len(),
            forall|j: int|
                0 <= j < r@.len() ==> (#[trigger] r@[j]).valid() && r@[j].owner.bytes@
                    == change_address.bytes@ && r@[j].value == cl@[j].1 && r@[j].asset_id.bytes@
                    == cl@[j].0.bytes@,
    {
        let mut notes: Vec<Note> = Vec::new();
        let mut k: usize = 0;
        let n = cl.len();
        while k < n
            invariant
                k <= n,
                n == cl@.len(),
                change_address.valid(),
                sender.valid(),
                forall|j: int| 0 <= j < cl@.len() ==> (#[trigger] cl@[j]).0.valid(),
                notes@.len() == k,
                forall|j: int|
                    0 <= j < k ==> (#[trigger] notes@[j]).valid() && notes@[j].owner.bytes@
                        == change_address.bytes@ && notes@[j].value == cl@[j].1
                        && notes@[j].asset_id.bytes@ == cl@[j].0.bytes@,
            decreases n - k,
        {
            let note = Note::new(
                PublicAddress { bytes: change_address.bytes.clone() },
                cl[k].1,
                Memo::from_string(""),
                AssetIdentifier { bytes: cl[k].0.bytes.clone() },
                PublicAddress { bytes: sender.bytes.clone() },
            );
            notes.push(note);
            k = k + 1;
        }
        notes
    }

    /// Appends the change notes of a change list as pending outputs. The
    /// accounting cannot fail here: each note's value is exactly its
    /// asset's positive residual.
    fn apply_change_outputs(
        &mut self,
        fee: i64,
        cl: &Vec<(AssetIdentifier, u64)>,
        change_notes: Vec<Note>,
    )
        requires
            old(self).valid(),
            old(self).state == BuilderState::Proposed,
            fee >= 0,
            spec_change_list_ok(old(self).value_balances.entries@, fee as int, cl@),
            change_notes@.len() == cl@.len(),
            forall|j: int|
                0 <= j < change_notes@.len() ==> (#[trigger] change_notes@[j]).valid()
                    && change_notes@[j].value == cl@[j].1 && change_notes@[j].asset_id.bytes@
                    == cl@[j].0.bytes@,
        ensures
            final(self).valid(),
            final(self).state == BuilderState::Proposed,
            final(self).spends@ == old(self).spends@,
            final(self).mints@ == old(self).mints@,
            final(self).burns@ == old(self).burns@,
            final(self).version == old(self).version,
            final(self).expiration == old(self).expiration,
            final(self).spender_key == old(self).spender_key,
            final(self).public_key_randomness == old(self).public_key_randomness,
            final(self).intended_fee == old(self).intended_fee,
            final(self).outputs@.len() == old(self).outputs@.len() + cl@.len(),
            final(self).outputs@.subrange(0, old(self).outputs@.len() as int) == old(
                self,
            ).outputs@,
            forall|j: int|
                0 <= j < cl@.len() ==> #[trigger] final(self).outputs@[old(self).outputs@.len()
                    + j] == change_notes@[j],
    {
        let ghost orig = *old(self);
        let ghost clg = cl@;
        let ghost notes_orig = change_notes@;
        let mut change_notes = change_notes;
        let mut k: usize = 0;
        let n_change = cl.len();
        while k < n_change
            invariant
                k <= n_change,
                n_change == clg.len(),
                cl@ == clg,
                notes_orig.len() == clg.len(),
                change_notes@ == notes_orig.subrange(k as int, clg.len() as int),
                forall|j: int|
                    0 <= j < notes_orig.len() ==> (#[trigger] notes_orig[j]).valid()
                        && notes_orig[j].value == clg[j].1 && notes_orig[j].asset_id.bytes@
                        == clg[j].0.bytes@,
                spec_change_list_ok(orig.value_balances.entries@, fee as int, clg),
                fee >= 0,
                self.valid(),
                self.state == BuilderState::Proposed,
                self.spends@ == orig.spends@,
                self.mints@ == orig.mints@,
                self.burns@ == orig.burns@,
                self.version == orig.version,
                self.expiration == orig.expiration,
                self.spender_key == orig.spender_key,
                self.public_key_randomness == orig.public_key_randomness,
                self.intended_fee == orig.intended_fee,
                self.outputs@.len() == orig.outputs@.len() + k,
                self.outputs@.subrange(0, orig.outputs@.len() as int) == orig.outputs@,
                forall|j: int|
                    0 <= j < k ==> #[trigger] self.outputs@[orig.outputs@.len() + j]
                        == notes_orig[j],
                forall|j: int|
                    k <= j < clg.len() ==> spec_balance(
                        self.value_balances.entries@,
                        (#[trigger] clg[j]).0.bytes@,
                    ) == spec_balance(orig.value_balances.entries@, clg[j].0.bytes@),
            decreases n_change - k,
        {
            proof {
                reveal(spec_change_list_ok);
            }
            let note = change_notes.remove(0);
            proof {
                assert(note == notes_orig[k as int]);
                assert(change_notes@ =~= notes_orig.subrange(k + 1, clg.len() as int));
            }
            let ghost pre = *self;
            match self.add_output(note) {
                Ok(_) => {},
                Err(_) => {
                    proof {
                        assert(spec_balance(
                            pre.value_balances.entries@,
                            clg[k as int].0.bytes@,
                        ) == spec_balance(orig.value_balances.entries@, clg[k as int].0.bytes@));
                        assert(clg[k as int].1 as int == spec_residual(
                            orig.value_balances.entries@,
                            fee as int,
                            clg[k as int].0.bytes@,
                        ));
                        assert(false);
                    }
                },
            }
            proof {
                assert forall|j: int| 0 <= j < pre.outputs@.len() implies self.outputs@[j]
                    == pre.outputs@[j] by {
                    assert(self.outputs@.drop_last()[j] == pre.outputs@[j]);
                }
                assert(self.outputs@.last() == self.outputs@[self.outputs@.len() - 1]);
                assert(self.outputs@.subrange(0, orig.outputs@.len() as int) =~= orig.outputs@);
                assert(self.outputs@[orig.outputs@.len() + k as int] == note);
                assert forall|j: int|
                    0 <= j < k + 1 implies #[trigger] self.outputs@[orig.outputs@.len() + j]
                        == notes_orig[j] by {
                    if j < k {
                        assert(self.outputs@[orig.outputs@.len() + j] == pre.outputs@[orig.outputs@.len()
                            + j]);
                    }
                }
                assert forall|j: int|
                    k + 1 <= j < clg.len() implies spec_balance(
                        self.value_balances.entries@,
                        (#[trigger] clg[j]).0.bytes@,
                    ) == spec_balance(orig.value_balances.entries@, clg[j].0.bytes@) by {
                    assert(clg[j].0.bytes@ != clg[k as int].0.bytes@);
                }
            }
            k = k + 1;
        }
    }

    /// Serializes the circuit inputs of one pending spend.
    fn spend_circuit_blob(sb: &SpendBuilder) -> (r: Vec<u8>)
        requires
            sb.valid(),
        ensures
            r@ == spec_spend_circuit(*sb),
    {
        let mut blob = u32_to_le_bytes(sb.tree_size);
        let mut root = sb.root_hash.clone();
        let mut pos = u64_to_le_bytes(sb.position);
        let mut commitment = sb.note.commitment();
        blob.append(&mut root);
        blob.append(&mut pos);
        blob.append(&mut commitment);
        proof {
            assert(blob@ =~= spec_spend_circuit(*sb));
        }
        blob
    }

    /// Serializes the circuit inputs of one pending mint.
    fn mint_circuit_blob(mb: &MintBuilder) -> (r: Vec<u8>)
        requires
            mb.valid(),
        ensures
            r@ == spec_mint_circuit(*mb),
    {
        let mut blob = mb.asset.serialize();
        let mut value_bytes = u64_to_le_bytes(mb.value);
        blob.append(&mut value_bytes);
        proof {
            assert(blob@ =~= spec_mint_circuit(*mb));
        }
        blob
    }
}

impl ProposedTransaction {
    /// Balances the transaction for an intended fee and hands out the
    /// circuit inputs and ephemeral key material a prover needs.
    ///
    /// A positive residual of any asset becomes a change output to the
    /// change address; with no change address supplied, any nonzero
    /// residual is an `InvalidBalance` error. When every residual is
    /// zero no change output is synthesized; when exactly the native
    /// asset has a positive residual, exactly one change output is
    /// synthesized, owned by the change address and carrying exactly
    /// that residual.
    #[verifier::rlimit(100)]
    #[verifier::spinoff_prover]
    pub fn build_circuits(
        &mut self,
        change_goes_to: Option<PublicAddress>,
        intended_transaction_fee: u64,
    ) -> (r: Result<TransactionCircuits, IronfishError>)
        requires
            old(self).valid(),
            change_goes_to matches Some(a) ==> a.valid(),
        ensures
            final(self).valid(),
            r is Ok <==> (old(self).state == BuilderState::Proposed && intended_transaction_fee
                <= i64::MAX && spec_can_balance(
                old(self).value_balances.entries@,
                intended_transaction_fee as int,
                change_goes_to is Some,
            )),
            r matches Ok(c) ==> {
                &&& final(self).state == BuilderState::CircuitsBuilt
                &&& final(self).intended_fee == intended_transaction_fee as i64
                &&& final(self).spends@ == old(self).spends@
                &&& final(self).mints@ == old(self).mints@
                &&& final(self).burns@ == old(self).burns@
                &&& final(self).version == old(self).version
                &&& final(self).expiration == old(self).expiration
                &&& final(self).spender_key == old(self).spender_key
                &&& final(self).public_key_randomness == old(self).public_key_randomness
                &&& final(self).outputs@.len() >= old(self).outputs@.len()
                &&& final(self).outputs@.subrange(0, old(self).outputs@.len() as int) == old(self).outputs@
                &&& forall|k: int|
                    old(self).outputs@.len() <= k < final(self).outputs@.len()
                        ==> (change_goes_to matches Some(a) && (
                    #[trigger] final(self).outputs@[k]).owner.bytes@ == a.bytes@)
                &&& c.spend_circuits@.len() == old(self).spends@.len()
                &&& forall|k: int|
                    0 <= k < c.spend_circuits@.len() ==> (#[trigger] c.spend_circuits@[k])@
                        == spec_spend_circuit(old(self).spends@[k])
                &&& c.output_circuits@.len() == final(self).outputs@.len()
                &&& forall|k: int|
                    0 <= k < c.output_circuits@.len() ==> (#[trigger] c.output_circuits@[k])@
                        == spec_output_circuit(final(self).outputs@[k])
                &&& c.mint_asset_circuits@.len() == old(self).mints@.len()
                &&& forall|k: int|
                    0 <= k < c.mint_asset_circuits@.len() ==> (
                    #[trigger] c.mint_asset_circuits@[k])@ == spec_mint_circuit(old(self).mints@[k])
                &&& c.output_diffie_hellman_keys@.len() == final(self).outputs@.len()
                &&& forall|k: int|
                    0 <= k < c.output_diffie_hellman_keys@.len() ==> (
                    #[trigger] c.output_diffie_hellman_keys@[k]).valid()
            },
            r is Ok && (forall|id: Seq<u8>|
                #[trigger] spec_residual(
                    old(self).value_balances.entries@,
                    intended_transaction_fee as int,
                    id,
                ) == 0) ==> final(self).outputs@ == old(self).outputs@,
            r is Ok && (spec_residual(
                old(self).value_balances.entries@,
                intended_transaction_fee as int,
                spec_native_id(),
            ) > 0 && (forall|id: Seq<u8>|
                id != spec_native_id() ==> #[trigger] spec_residual(
                    old(self).value_balances.entries@,
                    intended_transaction_fee as int,
                    id,
                ) == 0)) ==> (final(self).outputs@.len() == old(self).outputs@.len() + 1 && final(self).outputs@.last().value as int == spec_residual(
                old(self).value_balances.entries@,
                intended_transaction_fee as int,
                spec_native_id(),
            ) && final(self).outputs@.last().asset_id.bytes@ == spec_native_id()),
            r matches Err(e) ==> *final(self) == *old(self),
            (r matches Err(e) && e.kind == IronfishErrorKind::InvalidTransaction) <==> old(self).state != BuilderState::Proposed,
            (r matches Err(e) && e.kind == IronfishErrorKind::IllegalValue) <==> (old(self).state
                == BuilderState::Proposed && intended_transaction_fee > i64::MAX),
            (r matches Err(e) && e.kind == IronfishErrorKind::InvalidBalance) <==> (old(self).state
                == BuilderState::Proposed && intended_transaction_fee <= i64::MAX
                && !spec_can_balance(
                old(self).value_balances.entries@,
                intended_transaction_fee as int,
                change_goes_to is Some,
            )),
    {
        if !matches!(self.state, BuilderState::Proposed) {
            return Err(IronfishError::new(IronfishErrorKind::InvalidTransaction));
        }
        if intended_transaction_fee > 0x7fff_ffff_ffff_ffffu64 {
            return Err(IronfishError::new(IronfishErrorKind::IllegalValue));
        }
        let fee = intended_transaction_fee as i64;
        let cl = match self.compute_change(fee, change_goes_to.is_some()) {
            Ok(cl) => cl,
            Err(e) => { return Err(e) },
        };
        let ghost orig = *old(self);
        let ghost clg = cl@;
        proof {
            reveal(spec_change_list_ok);
            if forall|id: Seq<u8>|
                #[trigger] spec_residual(orig.value_balances.entries@, fee as int, id) == 0 {
                if clg.len() > 0 {
                    assert(spec_residual(orig.value_balances.entries@, fee as int, clg[0].0.bytes@)
                        > 0);
                }
            }
        }
        // resolve the change address and synthesize the change notes
        let spender_address = self.spender_key.public_address();
        let change_address = if cl.len() == 0 {
            PublicAddress { bytes: spender_address.bytes.clone() }
        } else {
            match &change_goes_to {
                Some(a) => PublicAddress { bytes: a.bytes.clone() },
                None => {
                    proof {
                        reveal(spec_can_balance);
                        reveal(spec_change_list_ok);
                        assert(spec_residual(
                            orig.value_balances.entries@,
                            fee as int,
                            clg[0].0.bytes@,
                        ) > 0);
                        assert(false);
                    }
                    PublicAddress { bytes: Vec::new() }
                },
            }
        };
        proof {
            reveal(spec_change_list_ok);
            assert(cl@.len() > 0 ==> (change_goes_to matches Some(a) && change_address.bytes@
                == a.bytes@));
        }
        let change_notes = Self::make_change_notes(&cl, &change_address, &spender_address);
        let ghost notes_g = change_notes@;
        self.apply_change_outputs(fee, &cl, change_notes);
        proof {
            assert forall|j: int|
                orig.outputs@.len() <= j < self.outputs@.len() implies (change_goes_to matches Some(
                    a,
                ) && (#[trigger] self.outputs@[j]).owner.bytes@ == a.bytes@) by {
                let jj = j - orig.outputs@.len();
                assert(self.outputs@[orig.outputs@.len() + jj] == notes_g[jj]);
                assert(notes_g[jj].owner.bytes@ == change_address.bytes@);
            }
        }
        // the circuit inputs
        let mut spend_circuits: Vec<Vec<u8>> = Vec::new();
        let mut i: usize = 0;
        let n_spends = self.spends.len();
        while i < n_spends
            invariant
                i <= n_spends,
                n_spends == self.spends@.len(),
                self.valid(),
                spend_circuits@.len() == i,
                forall|j: int|
                    0 <= j < i ==> (#[trigger] spend_circuits@[j])@ == spec_spend_circuit(
                        self.spends@[j],
                    ),
            decreases n_spends - i,
        {
            spend_circuits.push(Self::spend_circuit_blob(&self.spends[i]));
            i = i + 1;
        }
        let mut output_circuits: Vec<Vec<u8>> = Vec::new();
        let mut output_diffie_hellman_keys: Vec<EphemeralKeyPair> = Vec::new();
        let mut i2: usize = 0;
        let n_outputs = self.outputs.len();
        while i2 < n_outputs
            invariant
                i2 <= n_outputs,
                n_outputs == self.outputs@.len(),
                self.valid(),
                output_circuits@.len() == i2,
                output_diffie_hellman_keys@.len() == i2,
                forall|j: int|
                    0 <= j < i2 ==> (#[trigger] output_circuits@[j])@ == spec_output_circuit(
                        self.outputs@[j],
                    ),
                forall|j: int|
                    0 <= j < i2 ==> (#[trigger] output_diffie_hellman_keys@[j]).valid(),
            decreases n_outputs - i2,
        {
            output_circuits.push(self.outputs[i2].serialize());
            output_diffie_hellman_keys.push(EphemeralKeyPair::new());
            i2 = i2 + 1;
        }
        let mut mint_asset_circuits: Vec<Vec<u8>> = Vec::new();
        let mut i3: usize = 0;
        let n_mints = self.mints.len();
        while i3 < n_mints
            invariant
                i3 <= n_mints,
                n_mints == self.mints@.len(),
                self.valid(),
                mint_asset_circuits@.len() == i3,
                forall|j: int|
                    0 <= j < i3 ==> (#[trigger] mint_asset_circuits@[j])@ == spec_mint_circuit(
                        self.mints@[j],
                    ),
            decreases n_mints - i3,
        {
            mint_asset_circuits.push(Self::mint_circuit_blob(&self.mints[i3]));
            i3 = i3 + 1;
        }
        proof {
            reveal(spec_change_list_ok);
            assert((spec_residual(orig.value_balances.entries@, fee as int, spec_native_id()) > 0
                && (forall|id: Seq<u8>|
                id != spec_native_id() ==> #[trigger] spec_residual(
                    orig.value_balances.entries@,
                    fee as int,
                    id,
                ) == 0)) ==> (self.outputs@.len() == orig.outputs@.len() + 1
                && self.outputs@.last().value as int == spec_residual(
                orig.value_balances.entries@,
                fee as int,
                spec_native_id(),
            ) && self.outputs@.last().asset_id.bytes@ == spec_native_id())) by {
                if spec_residual(orig.value_balances.entries@, fee as int, spec_native_id()) > 0
                    && (forall|id: Seq<u8>|
                    id != spec_native_id() ==> #[trigger] spec_residual(
                        orig.value_balances.entries@,
                        fee as int,
                        id,
                    ) == 0) {
                    assert(exists|k0: int|
                        0 <= k0 < clg.len() && (#[trigger] clg[k0]).0.bytes@ == spec_native_id());
                    assert forall|j: int| 0 <= j < clg.len() implies (#[trigger] clg[j]).0.bytes@
                        == spec_native_id() by {
                        if clg[j].0.bytes@ != spec_native_id() {
                            assert(spec_residual(
                                orig.value_balances.entries@,
                                fee as int,
                                clg[j].0.bytes@,
                            ) > 0);
                        }
                    }
                    assert(clg.len() == 1) by {
                        if clg.len() > 1 {
                            assert(clg[0].0.bytes@ != clg[1].0.bytes@);
                        }
                        let k0 = choose|k0: int|
                            0 <= k0 < clg.len() && (#[trigger] clg[k0]).0.bytes@
                                == spec_native_id();
                    }
                    let j0: int = 0;
                    assert(self.outputs@[orig.outputs@.len() + j0] == notes_g[j0]);
                    assert(notes_g[j0].value == clg[j0].1 && notes_g[j0].asset_id.bytes@
                        == clg[j0].0.bytes@);
                    assert(self.outputs@.last() == self.outputs@[orig.outputs@.len() + j0]);
                }
            }
            assert((forall|id: Seq<u8>|
                #[trigger] spec_residual(orig.value_balances.entries@, fee as int, id) == 0)
                ==> self.outputs@ == orig.outputs@) by {
                if forall|id: Seq<u8>|
                    #[trigger] spec_residual(orig.value_balances.entries@, fee as int, id) == 0 {
                    if clg.len() > 0 {
                        assert(spec_residual(
                            orig.value_balances.entries@,
                            fee as int,
                            clg[0].0.bytes@,
                        ) > 0);
                    }
                    assert(clg.len() == 0);
                    assert(self.outputs@ =~= orig.outputs@);
                }
            }
        }
        self.intended_fee = fee;
        self.state = BuilderState::CircuitsBuilt;
        Ok(
            TransactionCircuits {
                spend_circuits,
                output_circuits,
                output_diffie_hellman_keys,
                mint_asset_circuits,
            },
        )
    }
}


/// The wire form of one spend description.
pub open spec fn spec_spend_bytes(s: SpendDescription) -> Seq<u8> {
    spec_u32_to_le_bytes(s.tree_size) + s.root_hash@ + s.nullifier@ + s.proof.bytes@
}

/// The wire form of one output description.
pub open spec fn spec_output_bytes(o: OutputDescription) -> Seq<u8> {
    crate::merkle_note::spec_merkle_note_bytes(o.merkle_note) + o.proof.bytes@
}

/// The wire form of one mint description. The first version has no
/// ownership transfer; later versions carry a presence byte and the
/// optional new owner.
pub open spec fn spec_mint_bytes(m: MintDescription, version: TransactionVersion) -> Seq<u8> {
    crate::assets::spec_asset_bytes(m.asset) + spec_u64_to_le_bytes(m.value) + (
    if version == TransactionVersion::V1 {
        Seq::<u8>::empty()
    } else {
        match m.transfer_ownership_to {
            Some(a) => seq![1u8] + a.bytes@,
            None => seq![0u8],
        }
    }) + m.proof.bytes@
}

/// The wire form of one burn description.
pub open spec fn spec_burn_bytes(b: BurnDescription) -> Seq<u8> {
    b.asset_id.bytes@ + spec_u64_to_le_bytes(b.value)
}

/// The concatenated wire form of a spend sequence.
pub open spec fn spec_spends_bytes(s: Seq<SpendDescription>) -> Seq<u8>
    decreases s.len(),
{
    if s.len() == 0 {
        Seq::empty()
    } else {
        spec_spends_bytes(s.drop_last()) + spec_spend_bytes(s.last())
    }
}

/// The concatenated wire form of an output sequence.
pub open spec fn spec_outputs_bytes(s: Seq<OutputDescription>) -> Seq<u8>
    decreases s.len(),
{
    if s.len() == 0 {
        Seq::empty()
    } else {
        spec_outputs_bytes(s.drop_last()) + spec_output_bytes(s.last())
    }
}

/// The concatenated wire form of a mint sequence.
pub open spec fn spec_mints_bytes(s: Seq<MintDescription>, version: TransactionVersion) -> Seq<u8>
    decreases s.len(),
{
    if s.len() == 0 {
        Seq::empty()
    } else {
        spec_mints_bytes(s.drop_last(), version) + spec_mint_bytes(s.last(), version)
    }
}

/// The concatenated wire form of a burn sequence.
pub open spec fn spec_burns_bytes(s: Seq<BurnDescription>) -> Seq<u8>
    decreases s.len(),
{
    if s.len() == 0 {
        Seq::empty()
    } else {
        spec_burns_bytes(s.drop_last()) + spec_burn_bytes(s.last())
    }
}

/// A posted, immutable transaction: the signed bundle of descriptions a
/// client hands to the network.
#[derive(Debug)]
pub struct Transaction {
    pub version: TransactionVersion,
    pub spends: Vec<SpendDescription>,
    pub outputs: Vec<OutputDescription>,
    pub mints: Vec<MintDescription>,
    pub burns: Vec<BurnDescription>,
    pub fee: i64,
    pub expiration: u32,
    pub randomized_public_key: Vec<u8>,
    pub binding_signature: Vec<u8>,
}

/// The unsigned wire form of a transaction: everything the binding
/// signature signs, in order.
pub open spec fn spec_transaction_unsigned_bytes(t: Transaction) -> Seq<u8> {
    seq![t.version.spec_as_u8()] + spec_u32_to_le_bytes(t.spends@.len() as u32)
        + spec_u32_to_le_bytes(t.outputs@.len() as u32) + spec_u32_to_le_bytes(
        t.mints@.len() as u32,
    ) + spec_u32_to_le_bytes(t.burns@.len() as u32) + spec_spends_bytes(t.spends@)
        + spec_outputs_bytes(t.outputs@) + spec_mints_bytes(t.mints@, t.version)
        + spec_burns_bytes(t.burns@) + spec_u64_to_le_bytes(t.fee as u64) + spec_u32_to_le_bytes(
        t.expiration,
    ) + t.randomized_public_key@
}

/// The full wire form: the unsigned bytes followed by the binding
/// signature.
pub open spec fn spec_transaction_bytes(t: Transaction) -> Seq<u8> {
    spec_transaction_unsigned_bytes(t) + t.binding_signature@
}

/// The transaction-wide signature hash: a personalized hash binding the
/// version, every description, the fee, the expiration and the
/// randomized public key.
pub open spec fn spec_signature_hash(t: Transaction) -> Seq<u8> {
    blake2s_of(spec_tag(TAG_SIGNATURE_HASH), spec_transaction_unsigned_bytes(t))
}

/// The randomized public key of a posting: fresh per transaction so that
/// postings of one account cannot be linked by key reuse.
pub open spec fn spec_randomized_public_key(authorizing_key: Seq<u8>, randomness: Seq<u8>) -> Seq<
    u8,
> {
    blake2s_of(spec_tag(TAG_RANDOMIZED_KEY), authorizing_key + randomness)
}

/// The binding signature: two personalized hashes keyed by the spend
/// authorizing key over the randomized public key and signature hash.
pub open spec fn spec_binding_signature(
    spend_authorizing_key: Seq<u8>,
    randomized_public_key: Seq<u8>,
    hash: Seq<u8>,
) -> Seq<u8> {
    blake2s_of(spec_tag(TAG_SIGNATURE_A), spend_authorizing_key + randomized_public_key + hash)
        + blake2s_of(
        spec_tag(TAG_SIGNATURE_B),
        spend_authorizing_key + randomized_public_key + hash,
    )
}

impl Transaction {
    /// Everything but the signature is well formed and the counts fit
    /// their wire fields.
    pub open spec fn parts_valid(&self) -> bool {
        &&& forall|j: int| 0 <= j < self.spends@.len() ==> (#[trigger] self.spends@[j]).valid()
        &&& forall|j: int| 0 <= j < self.outputs@.len() ==> (#[trigger] self.outputs@[j]).valid()
        &&& forall|j: int| 0 <= j < self.mints@.len() ==> (#[trigger] self.mints@[j]).valid()
        &&& forall|j: int| 0 <= j < self.burns@.len() ==> (#[trigger] self.burns@[j]).valid()
        &&& self.version == TransactionVersion::V1 ==> forall|j: int|
            0 <= j < self.mints@.len() ==> (#[trigger] self.mints@[j]).transfer_ownership_to
                is None
        &&& self.spends@.len() <= u32::MAX
        &&& self.outputs@.len() <= u32::MAX
        &&& self.mints@.len() <= u32::MAX
        &&& self.burns@.len() <= u32::MAX
        &&& self.randomized_public_key@.len() == 32
    }

    /// A well-formed posted transaction.
    pub open spec fn valid(&self) -> bool {
        self.parts_valid() && self.binding_signature@.len() == 64
    }

    /// The miner's fee this transaction pays; negative only for a
    /// miner's-fee transaction.
    pub fn fee(&self) -> (r: i64)
        ensures
            r == self.fee,
    {
        self.fee
    }

    /// The block height after which this transaction expires.
    pub fn expiration(&self) -> (r: u32)
        ensures
            r == self.expiration,
    {
        self.expiration
    }

    /// The spend descriptions.
    pub fn spends(&self) -> (r: &Vec<SpendDescription>)
        ensures
            r == &self.spends,
    {
        &self.spends
    }

    /// The output descriptions.
    pub fn outputs(&self) -> (r: &Vec<OutputDescription>)
        ensures
            r == &self.outputs,
    {
        &self.outputs
    }

    /// The mint descriptions.
    pub fn mints(&self) -> (r: &Vec<MintDescription>)
        ensures
            r == &self.mints,
    {
        &self.mints
    }

    /// The burn descriptions.
    pub fn burns(&self) -> (r: &Vec<BurnDescription>)
        ensures
            r == &self.burns,
    {
        &self.burns
    }

    /// The binding signature bytes.
    pub fn binding_signature(&self) -> (r: Vec<u8>)
        ensures
            r@ == self.binding_signature@,
    {
        self.binding_signature.clone()
    }

    /// The randomized public key bytes.
    pub fn randomized_public_key(&self) -> (r: Vec<u8>)
        ensures
            r@ == self.randomized_public_key@,
    {
        self.randomized_public_key.clone()
    }

    /// Serializes everything the binding signature signs.
    fn serialize_unsigned(&self) -> (r: Vec<u8>)
        requires
            self.parts_valid(),
        ensures
            r@ == spec_transaction_unsigned_bytes(*self),
    {
        let mut out: Vec<u8> = Vec::new();
        out.push(self.version.as_u8());
        let mut c1 = u32_to_le_bytes(self.spends.len() as u32);
        let mut c2 = u32_to_le_bytes(self.outputs.len() as u32);
        let mut c3 = u32_to_le_bytes(self.mints.len() as u32);
        let mut c4 = u32_to_le_bytes(self.burns.len() as u32);
        out.append(&mut c1);
        out.append(&mut c2);
        out.append(&mut c3);
        out.append(&mut c4);
        let ghost header = out@;
        let mut i: usize = 0;
        let n1 = self.spends.len();
        while i < n1
            invariant
                i <= n1,
                n1 == self.spends@.len(),
                self.parts_valid(),
                out@ == header + spec_spends_bytes(self.spends@.subrange(0, i as int)),
            decreases n1 - i,
        {
            let s = &self.spends[i];
            let mut blob = u32_to_le_bytes(s.tree_size);
            let mut root = s.root_hash.clone();
            let mut nullifier = s.nullifier.clone();
            let mut proof = s.proof.bytes.clone();
            blob.append(&mut root);
            blob.append(&mut nullifier);
            blob.append(&mut proof);
            proof {
                assert(blob@ =~= spec_spend_bytes(self.spends@[i as int]));
                assert(self.spends@.subrange(0, i + 1).drop_last() =~= self.spends@.subrange(
                    0,
                    i as int,
                ));
                assert(self.spends@.subrange(0, i + 1).last() == self.spends@[i as int]);
            }
            out.append(&mut blob);
            proof {
                assert(out@ =~= header + spec_spends_bytes(self.spends@.subrange(0, i + 1)));
            }
            i = i + 1;
        }
        proof {
            assert(self.spends@.subrange(0, n1 as int) =~= self.spends@);
        }
        let ghost with_spends = out@;
        let mut i2: usize = 0;
        let n2 = self.outputs.len();
        while i2 < n2
            invariant
                i2 <= n2,
                n2 == self.outputs@.len(),
                self.parts_valid(),
                out@ == with_spends + spec_outputs_bytes(self.outputs@.subrange(0, i2 as int)),
            decreases n2 - i2,
        {
            let o = &self.outputs[i2];
            let mut blob = o.merkle_note.serialize();
            let mut proof = o.proof.bytes.clone();
            blob.append(&mut proof);
            proof {
                assert(blob@ =~= spec_output_bytes(self.outputs@[i2 as int]));
                assert(self.outputs@.subrange(0, i2 + 1).drop_last() =~= self.outputs@.subrange(
                    0,
                    i2 as int,
                ));
                assert(self.outputs@.subrange(0, i2 + 1).last() == self.outputs@[i2 as int]);
            }
            out.append(&mut blob);
            proof {
                assert(out@ =~= with_spends + spec_outputs_bytes(
                    self.outputs@.subrange(0, i2 + 1),
                ));
            }
            i2 = i2 + 1;
        }
        proof {
            assert(self.outputs@.subrange(0, n2 as int) =~= self.outputs@);
        }
        let ghost with_outputs = out@;
        let mut i3: usize = 0;
        let n3 = self.mints.len();
        while i3 < n3
            invariant
                i3 <= n3,
                n3 == self.mints@.len(),
                self.parts_valid(),
                out@ == with_outputs + spec_mints_bytes(
                    self.mints@.subrange(0, i3 as int),
                    self.version,
                ),
            decreases n3 - i3,
        {
            let m = &self.mints[i3];
            let mut blob = m.asset.serialize();
            let mut value_bytes = u64_to_le_bytes(m.value);
            blob.append(&mut value_bytes);
            if !matches!(self.version, TransactionVersion::V1) {
                match &m.transfer_ownership_to {
                    Some(a) => {
                        blob.push(1);
                        let mut owner = a.bytes.clone();
                        blob.append(&mut owner);
                    },
                    None => {
                        blob.push(0);
                    },
                }
            }
            let mut proof = m.proof.bytes.clone();
            blob.append(&mut proof);
            proof {
                assert(blob@ =~= spec_mint_bytes(self.mints@[i3 as int], self.version));
                assert(self.mints@.subrange(0, i3 + 1).drop_last() =~= self.mints@.subrange(
                    0,
                    i3 as int,
                ));
                assert(self.mints@.subrange(0, i3 + 1).last() == self.mints@[i3 as int]);
            }
            out.append(&mut blob);
            proof {
                assert(out@ =~= with_outputs + spec_mints_bytes(
                    self.mints@.subrange(0, i3 + 1),
                    self.version,
                ));
            }
            i3 = i3 + 1;
        }
        proof {
            assert(self.mints@.subrange(0, n3 as int) =~= self.mints@);
        }
        let ghost with_mints = out@;
        let mut i4: usize = 0;
        let n4 = self.burns.len();
        while i4 < n4
            invariant
                i4 <= n4,
                n4 == self.burns@.len(),
                self.parts_valid(),
                out@ == with_mints + spec_burns_bytes(self.burns@.subrange(0, i4 as int)),
            decreases n4 - i4,
        {
            let b = &self.burns[i4];
            let mut blob = b.asset_id.bytes.clone();
            let mut value_bytes = u64_to_le_bytes(b.value);
            blob.append(&mut value_bytes);
            proof {
                assert(blob@ =~= spec_burn_bytes(self.burns@[i4 as int]));
                assert(self.burns@.subrange(0, i4 + 1).drop_last() =~= self.burns@.subrange(
                    0,
                    i4 as int,
                ));
                assert(self.burns@.subrange(0, i4 + 1).last() == self.burns@[i4 as int]);
            }
            out.append(&mut blob);
            proof {
                assert(out@ =~= with_mints + spec_burns_bytes(self.burns@.subrange(0, i4 + 1)));
            }
            i4 = i4 + 1;
        }
        proof {
            assert(self.burns@.subrange(0, n4 as int) =~= self.burns@);
        }
        let fee_cast: u64 = self.fee as u64;
        let mut fee_bytes = u64_to_le_bytes(fee_cast);
        let mut exp_bytes = u32_to_le_bytes(self.expiration);
        let mut rpk = self.randomized_public_key.clone();
        out.append(&mut fee_bytes);
        out.append(&mut exp_bytes);
        out.append(&mut rpk);
        proof {
            assert(out@ =~= spec_transaction_unsigned_bytes(*self));
        }
        out
    }

    /// Serializes the transaction to its wire form: the unsigned bytes
    /// followed by the binding signature. Writing is bit-reproducible:
    /// identical transactions give identical bytes.
    pub fn serialize(&self) -> (r: Vec<u8>)
        requires
            self.valid(),
        ensures
            r@ == spec_transaction_bytes(*self),
    {
        let mut out = self.serialize_unsigned();
        let mut sig = self.binding_signature.clone();
        out.append(&mut sig);
        out
    }

    /// The transaction-wide signature hash.
    pub fn transaction_signature_hash(&self) -> (r: Vec<u8>)
        requires
            self.parts_valid(),
        ensures
            r@ == spec_signature_hash(*self),
            r@.len() == 32,
    {
        let t = tag(TAG_SIGNATURE_HASH);
        let unsigned = self.serialize_unsigned();
        blake2s(t.as_slice(), unsigned.as_slice())
    }

    /// The transaction as a hexadecimal string.
    pub fn to_hex(&self) -> (r: String)
        requires
            self.valid(),
        ensures
            r@ == crate::serializing::spec_to_hex(spec_transaction_bytes(*self)),
    {
        let bytes = self.serialize();
        crate::serializing::encode_hex(bytes.as_slice())
    }
}


/// The outside proving capability: takes one circuit input blob and
/// returns an opaque proof, or reports failure. The crate states nothing
/// about the proof's content; callers of [`ProposedTransaction::post`]
/// supply an implementation.
pub trait Prover {
    /// Produces a proof for one circuit input blob.
    fn prove(&mut self, circuit: &Vec<u8>) -> Result<Vec<u8>, IronfishError>;
}

/// Copies an asset record.
fn copy_asset(a: &Asset) -> (r: Asset)
    requires
        a.valid(),
    ensures
        r.creator.bytes@ == a.creator.bytes@,
        r.name@ == a.name@,
        r.metadata@ == a.metadata@,
        r.nonce == a.nonce,
        r.id.bytes@ == a.id.bytes@,
        r.valid(),
        crate::assets::spec_asset_bytes(r) == crate::assets::spec_asset_bytes(*a),
{
    let r = Asset {
        creator: PublicAddress { bytes: a.creator.bytes.clone() },
        name: a.name.clone(),
        metadata: a.metadata.clone(),
        nonce: a.nonce,
        id: AssetIdentifier { bytes: a.id.bytes.clone() },
    };
    proof {
        assert(crate::assets::spec_asset_bytes(r) =~= crate::assets::spec_asset_bytes(*a));
    }
    r
}

impl ProposedTransaction {
    /// Finalizes the balanced transaction with proofs produced out of
    /// process: one per spend, output and mint, together with the
    /// ephemeral key pair each output circuit was built with. The
    /// descriptions are deterministic given the same inputs and key
    /// material, so in-process and out-of-process posting agree.
    /// Whether every supplied proof blob has the proof width.
    fn all_proofs_valid(proofs: &Vec<Proof>) -> (r: bool)
        ensures
            r == (forall|k: int| 0 <= k < proofs@.len() ==> (#[trigger] proofs@[k]).valid()),
    {
        let mut v: usize = 0;
        let n = proofs.len();
        while v < n
            invariant
                v <= n,
                n == proofs@.len(),
                forall|k: int| 0 <= k < v ==> (#[trigger] proofs@[k]).valid(),
            decreases n - v,
        {
            if proofs[v].bytes.len() != PROOF_SIZE {
                return false;
            }
            v = v + 1;
        }
        true
    }

    /// Whether every supplied ephemeral key pair is well formed: the
    /// secret is a canonical scalar and the stored public point is the
    /// secret's own.
    fn all_keys_valid(keys: &Vec<EphemeralKeyPair>) -> (r: bool)
        ensures
            r == (forall|k: int| 0 <= k < keys@.len() ==> (#[trigger] keys@[k]).valid()),
    {
        let mut v: usize = 0;
        let n = keys.len();
        while v < n
            invariant
                v <= n,
                n == keys@.len(),
                forall|k: int| 0 <= k < v ==> (#[trigger] keys@[k]).valid(),
            decreases n - v,
        {
            let kp = &keys[v];
            if kp.secret.len() != 32 || kp.public.len() != 32 {
                return false;
            }
            if !crate::crypto::scalar_repr_valid(kp.secret.as_slice()) {
                return false;
            }
            match crate::crypto::derive_public(kp.secret.as_slice()) {
                Some(p) => {
                    if !bytes_eq(p.as_slice(), kp.public.as_slice()) {
                        return false;
                    }
                },
                None => {
                    proof {
                        assert(false);
                    }
                },
            }
            v = v + 1;
        }
        true
    }

    /// Whether every pending mint keeps its original owner.
    fn mints_keep_owner(mints: &Vec<MintBuilder>) -> (r: bool)
        ensures
            r == (forall|k: int|
                0 <= k < mints@.len() ==> (#[trigger] mints@[k]).transfer_ownership_to is None),
    {
        let mut v: usize = 0;
        let n = mints.len();
        while v < n
            invariant
                v <= n,
                n == mints@.len(),
                forall|k: int| 0 <= k < v ==> (#[trigger] mints@[k]).transfer_ownership_to is None,
            decreases n - v,
        {
            if mints[v].transfer_ownership_to.is_some() {
                return false;
            }
            v = v + 1;
        }
        true
    }

    /// Builds the spend descriptions: the witness data and the nullifier
    /// of each pending spend, paired with its proof.
    fn build_spend_descriptions(&self, spend_proofs: &Vec<Proof>) -> (r: Vec<SpendDescription>)
        requires
            self.valid(),
            spend_proofs@.len() == self.spends@.len(),
            forall|k: int| 0 <= k < spend_proofs@.len() ==> (#[trigger] spend_proofs@[k]).valid(),
        ensures
            r@.len() == self.spends@.len(),
            forall|k: int|
                0 <= k < r@.len() ==> (#[trigger] r@[k]).valid() && r@[k].tree_size
                    == self.spends@[k].tree_size && r@[k].root_hash@ == self.spends@[k].root_hash@
                    && r@[k].nullifier@ == spec_nullifier(
                    spec_commitment(self.spends@[k].note),
                    spec_nullifier_deriving_key(self.spender_key.spending_key@),
                    self.spends@[k].position,
                ) && r@[k].proof.bytes@ == spend_proofs@[k].bytes@,
    {
        let view_key = self.spender_key.view_key();
        let mut spends: Vec<SpendDescription> = Vec::new();
        let mut i: usize = 0;
        let n1 = self.spends.len();
        while i < n1
            invariant
                i <= n1,
                n1 == self.spends@.len(),
                self.valid(),
                view_key.authorizing_key@ == spec_authorizing_key(self.spender_key.spending_key@),
                view_key.nullifier_deriving_key@ == spec_nullifier_deriving_key(
                    self.spender_key.spending_key@,
                ),
                view_key.valid(),
                spend_proofs@.len() == n1,
                forall|k: int| 0 <= k < n1 ==> (#[trigger] spend_proofs@[k]).valid(),
                spends@.len() == i,
                forall|k: int|
                    0 <= k < i ==> (#[trigger] spends@[k]).valid() && spends@[k].tree_size
                        == self.spends@[k].tree_size && spends@[k].root_hash@
                        == self.spends@[k].root_hash@ && spends@[k].nullifier@ == spec_nullifier(
                        spec_commitment(self.spends@[k].note),
                        spec_nullifier_deriving_key(self.spender_key.spending_key@),
                        self.spends@[k].position,
                    ) && spends@[k].proof.bytes@ == spend_proofs@[k].bytes@,
            decreases n1 - i,
        {
            let sb = &self.spends[i];
            let nullifier = sb.note.nullifier(&view_key, sb.position);
            spends.push(
                SpendDescription {
                    tree_size: sb.tree_size,
                    root_hash: sb.root_hash.clone(),
                    nullifier,
                    proof: Proof { bytes: spend_proofs[i].bytes.clone() },
                },
            );
            i = i + 1;
        }
        spends
    }

    /// Builds the output descriptions: each pending note encrypted under
    /// its ephemeral key pair with a fresh value commitment, paired with
    /// its proof.
    #[verifier::rlimit(100)]
    #[verifier::spinoff_prover]
    fn build_output_descriptions(
        &self,
        output_proofs: &Vec<Proof>,
        output_diffie_hellman_keys: &Vec<EphemeralKeyPair>,
    ) -> (r: Vec<OutputDescription>)
        requires
            self.valid(),
            output_proofs@.len() == self.outputs@.len(),
            output_diffie_hellman_keys@.len() == self.outputs@.len(),
            forall|k: int| 0 <= k < output_proofs@.len() ==> (#[trigger] output_proofs@[k]).valid(),
            forall|k: int|
                0 <= k < output_diffie_hellman_keys@.len() ==> (
                #[trigger] output_diffie_hellman_keys@[k]).valid(),
        ensures
            r@.len() == self.outputs@.len(),
            forall|k: int|
                0 <= k < r@.len() ==> (#[trigger] r@[k]).valid() && r@[k].proof.bytes@
                    == output_proofs@[k].bytes@ && exists|vcb: Seq<u8>|
                    spec_is_encryption_of(
                        r@[k].merkle_note,
                        spec_outgoing_view_key(self.spender_key.spending_key@),
                        self.outputs@[k],
                        vcb,
                        output_diffie_hellman_keys@[k].secret@,
                    ),
    {
        let mut outputs: Vec<OutputDescription> = Vec::new();
        let mut i2: usize = 0;
        let n2 = self.outputs.len();
        while i2 < n2
            invariant
                i2 <= n2,
                n2 == self.outputs@.len(),
                self.valid(),
                output_proofs@.len() == n2,
                output_diffie_hellman_keys@.len() == n2,
                forall|k: int| 0 <= k < n2 ==> (#[trigger] output_proofs@[k]).valid(),
                forall|k: int|
                    0 <= k < n2 ==> (#[trigger] output_diffie_hellman_keys@[k]).valid(),
                outputs@.len() == i2,
                forall|k: int|
                    0 <= k < i2 ==> (#[trigger] outputs@[k]).valid() && outputs@[k].proof.bytes@
                        == output_proofs@[k].bytes@ && exists|vcb: Seq<u8>|
                        spec_is_encryption_of(
                            outputs@[k].merkle_note,
                            spec_outgoing_view_key(self.spender_key.spending_key@),
                            self.outputs@[k],
                            vcb,
                            output_diffie_hellman_keys@[k].secret@,
                        ),
            decreases n2 - i2,
        {
            let note = &self.outputs[i2];
            let vc = ValueCommitment::new(note.value, note.asset_id.bytes.clone());
            let merkle_note = MerkleNote::new(
                &self.spender_key,
                note,
                &vc,
                &output_diffie_hellman_keys[i2],
            );
            proof {
                assert(spec_is_encryption_of(
                    merkle_note,
                    spec_outgoing_view_key(self.spender_key.spending_key@),
                    self.outputs@[i2 as int],
                    crate::merkle_note::spec_vc_commitment(vc),
                    output_diffie_hellman_keys@[i2 as int].secret@,
                ));
            }
            outputs.push(
                OutputDescription {
                    merkle_note,
                    proof: Proof { bytes: output_proofs[i2].bytes.clone() },
                },
            );
            i2 = i2 + 1;
        }
        outputs
    }

    /// Builds the mint descriptions, pairing each pending mint with its
    /// proof.
    fn build_mint_descriptions(&self, mint_asset_proofs: &Vec<Proof>) -> (r: Vec<MintDescription>)
        requires
            self.valid(),
            mint_asset_proofs@.len() == self.mints@.len(),
            forall|k: int|
                0 <= k < mint_asset_proofs@.len() ==> (#[trigger] mint_asset_proofs@[k]).valid(),
        ensures
            r@.len() == self.mints@.len(),
            forall|k: int|
                0 <= k < r@.len() ==> (#[trigger] r@[k]).valid() && r@[k].value
                    == self.mints@[k].value && r@[k].proof.bytes@ == mint_asset_proofs@[k].bytes@
                    && r@[k].asset.id.bytes@ == self.mints@[k].asset.id.bytes@ && (
                r@[k].transfer_ownership_to is Some <==> self.mints@[k].transfer_ownership_to
                    is Some) && (r@[k].transfer_ownership_to matches Some(a) ==> (
                self.mints@[k].transfer_ownership_to matches Some(b) && a.bytes@ == b.bytes@)),
    {
        let mut mints: Vec<MintDescription> = Vec::new();
        let mut i3: usize = 0;
        let n3 = self.mints.len();
        while i3 < n3
            invariant
                i3 <= n3,
                n3 == self.mints@.len(),
                self.valid(),
                mint_asset_proofs@.len() == n3,
                forall|k: int| 0 <= k < n3 ==> (#[trigger] mint_asset_proofs@[k]).valid(),
                mints@.len() == i3,
                forall|k: int|
                    0 <= k < i3 ==> (#[trigger] mints@[k]).valid() && mints@[k].value
                        == self.mints@[k].value && mints@[k].proof.bytes@
                        == mint_asset_proofs@[k].bytes@ && mints@[k].asset.id.bytes@
                        == self.mints@[k].asset.id.bytes@ && (mints@[k].transfer_ownership_to
                        is Some <==> self.mints@[k].transfer_ownership_to is Some) && (
                    mints@[k].transfer_ownership_to matches Some(a) ==> (
                    self.mints@[k].transfer_ownership_to matches Some(b) && a.bytes@
                        == b.bytes@)),
            decreases n3 - i3,
        {
            let mb = &self.mints[i3];
            let transfer_ownership_to = match &mb.transfer_ownership_to {
                Some(a) => Some(PublicAddress { bytes: a.bytes.clone() }),
                None => None,
            };
            mints.push(
                MintDescription {
                    asset: copy_asset(&mb.asset),
                    value: mb.value,
                    transfer_ownership_to,
                    proof: Proof { bytes: mint_asset_proofs[i3].bytes.clone() },
                },
            );
            i3 = i3 + 1;
        }
        mints
    }

    /// Copies the burn descriptions for posting.
    fn build_burn_descriptions(&self) -> (r: Vec<BurnDescription>)
        requires
            self.valid(),
        ensures
            r@.len() == self.burns@.len(),
            forall|k: int|
                0 <= k < r@.len() ==> (#[trigger] r@[k]).valid() && r@[k].asset_id.bytes@
                    == self.burns@[k].asset_id.bytes@ && r@[k].value == self.burns@[k].value,
    {
        let mut burns: Vec<BurnDescription> = Vec::new();
        let mut i4: usize = 0;
        let n4 = self.burns.len();
        while i4 < n4
            invariant
                i4 <= n4,
                n4 == self.burns@.len(),
                self.valid(),
                burns@.len() == i4,
                forall|k: int|
                    0 <= k < i4 ==> (#[trigger] burns@[k]).valid() && burns@[k].asset_id.bytes@
                        == self.burns@[k].asset_id.bytes@ && burns@[k].value
                        == self.burns@[k].value,
            decreases n4 - i4,
        {
            let bd = &self.burns[i4];
            burns.push(
                BurnDescription {
                    asset_id: AssetIdentifier { bytes: bd.asset_id.bytes.clone() },
                    value: bd.value,
                },
            );
            i4 = i4 + 1;
        }
        burns
    }

    /// Finalizes the balanced transaction with proofs produced out of
    /// process: one per spend, output and mint, together with the
    /// ephemeral key pair each output circuit was built with. The
    /// descriptions are deterministic given the same inputs and key
    /// material, so in-process and out-of-process posting agree.
    #[verifier::rlimit(100)]
    #[verifier::spinoff_prover]
    pub fn post_wasm(
        &mut self,
        spend_proofs: Vec<Proof>,
        output_proofs: Vec<Proof>,
        output_diffie_hellman_keys: Vec<EphemeralKeyPair>,
        mint_asset_proofs: Vec<Proof>,
    ) -> (r: Result<Transaction, IronfishError>)
        requires
            old(self).valid(),
        ensures
            final(self).valid(),
            r is Ok <==> (old(self).state == BuilderState::CircuitsBuilt && old(self).spends@.len() <= u32::MAX && old(self).outputs@.len() <= u32::MAX && old(self).mints@.len() <= u32::MAX && old(self).burns@.len() <= u32::MAX && spend_proofs@.len()
                == old(self).spends@.len() && output_proofs@.len() == old(self).outputs@.len()
                && output_diffie_hellman_keys@.len() == old(self).outputs@.len()
                && mint_asset_proofs@.len() == old(self).mints@.len() && (forall|k: int|
                0 <= k < spend_proofs@.len() ==> (#[trigger] spend_proofs@[k]).valid()) && (
            forall|k: int|
                0 <= k < output_proofs@.len() ==> (#[trigger] output_proofs@[k]).valid()) && (
            forall|k: int|
                0 <= k < mint_asset_proofs@.len() ==> (#[trigger] mint_asset_proofs@[k]).valid())
                && (forall|k: int|
                0 <= k < output_diffie_hellman_keys@.len() ==> (
                #[trigger] output_diffie_hellman_keys@[k]).valid()) && (old(self).version
                == TransactionVersion::V1 ==> forall|k: int|
                0 <= k < old(self).mints@.len() ==> (
                #[trigger] old(self).mints@[k]).transfer_ownership_to is None)),
            r matches Ok(t) ==> {
                &&& final(self).state == BuilderState::Posted
                &&& t.valid()
                &&& t.version == old(self).version
                &&& t.fee == old(self).intended_fee
                &&& t.expiration == old(self).expiration
                &&& t.randomized_public_key@ == spec_randomized_public_key(
                    spec_authorizing_key(old(self).spender_key.spending_key@),
                    old(self).public_key_randomness@,
                )
                &&& t.binding_signature@ == spec_binding_signature(
                    spec_spend_authorizing_key(old(self).spender_key.spending_key@),
                    t.randomized_public_key@,
                    spec_signature_hash(t),
                )
                &&& t.spends@.len() == old(self).spends@.len()
                &&& forall|k: int|
                    0 <= k < t.spends@.len() ==> (#[trigger] t.spends@[k]).tree_size == old(self).spends@[k].tree_size && t.spends@[k].root_hash@ == old(self).spends@[k].root_hash@ && t.spends@[k].nullifier@ == spec_nullifier(
                        spec_commitment(old(self).spends@[k].note),
                        spec_nullifier_deriving_key(old(self).spender_key.spending_key@),
                        old(self).spends@[k].position,
                    ) && t.spends@[k].proof.bytes@ == spend_proofs@[k].bytes@
                &&& t.outputs@.len() == old(self).outputs@.len()
                &&& forall|k: int|
                    0 <= k < t.outputs@.len() ==> (#[trigger] t.outputs@[k]).proof.bytes@
                        == output_proofs@[k].bytes@ && exists|vcb: Seq<u8>|
                        spec_is_encryption_of(
                            t.outputs@[k].merkle_note,
                            spec_outgoing_view_key(old(self).spender_key.spending_key@),
                            old(self).outputs@[k],
                            vcb,
                            output_diffie_hellman_keys@[k].secret@,
                        )
                &&& t.mints@.len() == old(self).mints@.len()
                &&& forall|k: int|
                    0 <= k < t.mints@.len() ==> (#[trigger] t.mints@[k]).value == old(self).mints@[k].value && t.mints@[k].proof.bytes@ == mint_asset_proofs@[k].bytes@
                        && t.mints@[k].asset.id.bytes@ == old(self).mints@[k].asset.id.bytes@
                        && (t.mints@[k].transfer_ownership_to is Some <==> old(self).mints@[k].transfer_ownership_to is Some) && (
                    t.mints@[k].transfer_ownership_to matches Some(a) ==> (old(self).mints@[k].transfer_ownership_to matches Some(b) && a.bytes@ == b.bytes@))
                &&& t.burns@.len() == old(self).burns@.len()
                &&& forall|k: int|
                    0 <= k < t.burns@.len() ==> (#[trigger] t.burns@[k]).asset_id.bytes@ == old(self).burns@[k].asset_id.bytes@ && t.burns@[k].value == old(self).burns@[k].value
            },
            r matches Err(e) ==> *final(self) == *old(self) && (e.kind
                == IronfishErrorKind::InvalidTransaction || e.kind
                == IronfishErrorKind::InvalidSpendProof || e.kind
                == IronfishErrorKind::InvalidOutputProof || e.kind
                == IronfishErrorKind::InvalidMintProof || e.kind == IronfishErrorKind::InvalidData
                || e.kind == IronfishErrorKind::InvalidTransactionVersion),
    {
        if !matches!(self.state, BuilderState::CircuitsBuilt) {
            return Err(IronfishError::new(IronfishErrorKind::InvalidTransaction));
        }
        if self.spends.len() > 0xffff_ffffusize || self.outputs.len() > 0xffff_ffffusize
            || self.mints.len() > 0xffff_ffffusize || self.burns.len() > 0xffff_ffffusize {
            return Err(IronfishError::new(IronfishErrorKind::InvalidTransaction));
        }
        if spend_proofs.len() != self.spends.len() || output_proofs.len() != self.outputs.len()
            || output_diffie_hellman_keys.len() != self.outputs.len() || mint_asset_proofs.len()
            != self.mints.len() {
            return Err(IronfishError::new(IronfishErrorKind::InvalidTransaction));
        }
        if !Self::all_proofs_valid(&spend_proofs) {
            return Err(IronfishError::new(IronfishErrorKind::InvalidSpendProof));
        }
        if !Self::all_proofs_valid(&output_proofs) {
            return Err(IronfishError::new(IronfishErrorKind::InvalidOutputProof));
        }
        if !Self::all_proofs_valid(&mint_asset_proofs) {
            return Err(IronfishError::new(IronfishErrorKind::InvalidMintProof));
        }
        if !Self::all_keys_valid(&output_diffie_hellman_keys) {
            return Err(IronfishError::new(IronfishErrorKind::InvalidData));
        }
        if matches!(self.version, TransactionVersion::V1) && !Self::mints_keep_owner(&self.mints) {
            return Err(IronfishError::new(IronfishErrorKind::InvalidTransactionVersion));
        }
        let spends = self.build_spend_descriptions(&spend_proofs);
        let outputs = self.build_output_descriptions(&output_proofs, &output_diffie_hellman_keys);
        let mints = self.build_mint_descriptions(&mint_asset_proofs);
        let burns = self.build_burn_descriptions();
        let view_key = self.spender_key.view_key();
        let t_rpk = tag(TAG_RANDOMIZED_KEY);
        let mut rpk_input = view_key.authorizing_key.clone();
        let mut pkr = self.public_key_randomness.clone();
        rpk_input.append(&mut pkr);
        proof {
            assert(rpk_input@ =~= spec_authorizing_key(self.spender_key.spending_key@)
                + self.public_key_randomness@);
        }
        let randomized_public_key = blake2s(t_rpk.as_slice(), rpk_input.as_slice());
        let mut transaction = Transaction {
            version: self.version,
            spends,
            outputs,
            mints,
            burns,
            fee: self.intended_fee,
            expiration: self.expiration,
            randomized_public_key,
            binding_signature: Vec::new(),
        };
        let hash = transaction.transaction_signature_hash();
        let ask = self.spender_key.spend_authorizing_key();
        let mut sig_input = ask;
        let mut rpk_copy = transaction.randomized_public_key.clone();
        let mut hash_copy = hash;
        sig_input.append(&mut rpk_copy);
        sig_input.append(&mut hash_copy);
        proof {
            assert(sig_input@ =~= spec_spend_authorizing_key(self.spender_key.spending_key@)
                + transaction.randomized_public_key@ + spec_signature_hash(transaction));
        }
        let t_sig_a = tag(TAG_SIGNATURE_A);
        let t_sig_b = tag(TAG_SIGNATURE_B);
        let mut signature = blake2s(t_sig_a.as_slice(), sig_input.as_slice());
        let mut second = blake2s(t_sig_b.as_slice(), sig_input.as_slice());
        signature.append(&mut second);
        let ghost unsigned = transaction;
        transaction.binding_signature = signature;
        proof {
            assert(spec_transaction_unsigned_bytes(transaction)
                == spec_transaction_unsigned_bytes(unsigned));
            assert(spec_signature_hash(transaction) == spec_signature_hash(unsigned));
            assert(transaction.binding_signature@ =~= spec_binding_signature(
                spec_spend_authorizing_key(self.spender_key.spending_key@),
                transaction.randomized_public_key@,
                spec_signature_hash(transaction),
            ));
        }
        self.state = BuilderState::Posted;
        Ok(transaction)
    }
}

/// Whether a builder's item counts fit the wire format's count fields,
/// change outputs included.
pub open spec fn spec_counts_in_range(p: ProposedTransaction) -> bool {
    &&& p.spends@.len() <= u32::MAX
    &&& p.mints@.len() <= u32::MAX
    &&& p.burns@.len() <= u32::MAX
    &&& p.outputs@.len() + p.value_balances.entries@.len() <= u32::MAX
}

impl ProposedTransaction {
    /// Balances and posts the transaction in one step, producing the
    /// proofs through the given prover. Nothing is altered until every
    /// proof is in hand: on any error the builder is exactly as it was,
    /// so posting can be retried. A prover failure is reported as a
    /// synthesis error carrying the prover's own error as its cause; a
    /// proof of the wrong width is the corresponding proof error.
    #[verifier::rlimit(100)]
    #[verifier::spinoff_prover]
    pub fn post<P: Prover>(
        &mut self,
        prover: &mut P,
        change_goes_to: Option<PublicAddress>,
        intended_transaction_fee: u64,
    ) -> (r: Result<Transaction, IronfishError>)
        requires
            old(self).valid(),
            change_goes_to matches Some(a) ==> a.valid(),
        ensures
            final(self).valid(),
            r matches Err(e) ==> *final(self) == *old(self),
            (r matches Err(e) && e.kind == IronfishErrorKind::InvalidTransaction) <==> (old(
                self,
            ).state != BuilderState::Proposed || !spec_counts_in_range(*old(self))),
            (r matches Err(e) && e.kind == IronfishErrorKind::IllegalValue) <==> (old(self).state
                == BuilderState::Proposed && spec_counts_in_range(*old(self))
                && intended_transaction_fee > i64::MAX),
            (r matches Err(e) && e.kind == IronfishErrorKind::InvalidBalance) <==> (old(self).state
                == BuilderState::Proposed && spec_counts_in_range(*old(self))
                && intended_transaction_fee <= i64::MAX && !spec_can_balance(
                old(self).value_balances.entries@,
                intended_transaction_fee as int,
                change_goes_to is Some,
            )),
            (old(self).state == BuilderState::Proposed && spec_counts_in_range(*old(self))
                && intended_transaction_fee <= i64::MAX && spec_can_balance(
                old(self).value_balances.entries@,
                intended_transaction_fee as int,
                change_goes_to is Some,
            )) ==> (r matches Err(e) ==> (e.kind == IronfishErrorKind::BellpersonSynthesis
                || e.kind == IronfishErrorKind::InvalidSpendProof || e.kind
                == IronfishErrorKind::InvalidOutputProof || e.kind
                == IronfishErrorKind::InvalidMintProof)),
            r is Ok ==> (old(self).state == BuilderState::Proposed && intended_transaction_fee
                <= i64::MAX && spec_can_balance(
                old(self).value_balances.entries@,
                intended_transaction_fee as int,
                change_goes_to is Some,
            )),
            r matches Ok(t) ==> {
                &&& final(self).state == BuilderState::Posted
                &&& t.valid()
                &&& t.version == old(self).version
                &&& t.fee == intended_transaction_fee as i64
                &&& t.expiration == old(self).expiration
                &&& t.spends@.len() == old(self).spends@.len()
                &&& t.mints@.len() == old(self).mints@.len()
                &&& t.burns@.len() == old(self).burns@.len()
                &&& t.outputs@.len() >= old(self).outputs@.len()
            },
            (forall|id: Seq<u8>|
                #[trigger] spec_residual(
                    old(self).value_balances.entries@,
                    intended_transaction_fee as int,
                    id,
                ) == 0) ==> (r matches Ok(t) ==> t.outputs@.len() == old(self).outputs@.len()),
    {
        if !matches!(self.state, BuilderState::Proposed) {
            return Err(IronfishError::new(IronfishErrorKind::InvalidTransaction));
        }
        if self.spends.len() > 0xffff_ffffusize || self.mints.len() > 0xffff_ffffusize
            || self.burns.len() > 0xffff_ffffusize || self.value_balances.entries.len()
            > 0xffff_ffffusize || self.outputs.len() > 0xffff_ffffusize
            - self.value_balances.entries.len() {
            return Err(IronfishError::new(IronfishErrorKind::InvalidTransaction));
        }
        if intended_transaction_fee > 0x7fff_ffff_ffff_ffffu64 {
            return Err(IronfishError::new(IronfishErrorKind::IllegalValue));
        }
        let fee = intended_transaction_fee as i64;
        let cl = match self.compute_change(fee, change_goes_to.is_some()) {
            Ok(cl) => cl,
            Err(e) => { return Err(e) },
        };
        let ghost orig = *old(self);
        let ghost clg = cl@;
        let spender_address = self.spender_key.public_address();
        let change_address = if cl.len() == 0 {
            PublicAddress { bytes: spender_address.bytes.clone() }
        } else {
            match &change_goes_to {
                Some(a) => PublicAddress { bytes: a.bytes.clone() },
                None => {
                    proof {
                        reveal(spec_can_balance);
                        reveal(spec_change_list_ok);
                        assert(spec_residual(
                            orig.value_balances.entries@,
                            fee as int,
                            clg[0].0.bytes@,
                        ) > 0);
                        assert(false);
                    }
                    PublicAddress { bytes: Vec::new() }
                },
            }
        };
        proof {
            reveal(spec_change_list_ok);
        }
        let change_notes = Self::make_change_notes(&cl, &change_address, &spender_address);
        let ghost notes_g = change_notes@;
        // prove the spend circuits
        let mut spend_proofs: Vec<Proof> = Vec::new();
        let mut i: usize = 0;
        let n1 = self.spends.len();
        while i < n1
            invariant
                i <= n1,
                *self == *old(self),
                old(self).valid(),
                n1 == self.spends@.len(),
                spend_proofs@.len() == i,
                old(self).state == BuilderState::Proposed,
                spec_counts_in_range(*old(self)),
                intended_transaction_fee <= i64::MAX,
                fee == intended_transaction_fee as i64,
                spec_can_balance(
                    old(self).value_balances.entries@,
                    intended_transaction_fee as int,
                    change_goes_to is Some,
                ),
                forall|k: int| 0 <= k < i ==> (#[trigger] spend_proofs@[k]).valid(),
            decreases n1 - i,
        {
            let blob = Self::spend_circuit_blob(&self.spends[i]);
            let proof_bytes = match prover.prove(&blob) {
                Ok(p) => p,
                Err(e) => {
                    return Err(
                        IronfishError::new_with_source(IronfishErrorKind::BellpersonSynthesis, e),
                    );
                },
            };
            if proof_bytes.len() != PROOF_SIZE {
                return Err(IronfishError::new(IronfishErrorKind::InvalidSpendProof));
            }
            spend_proofs.push(Proof { bytes: proof_bytes });
            i = i + 1;
        }
        // prove the output circuits: the pending outputs, then the change
        let mut output_proofs: Vec<Proof> = Vec::new();
        let mut output_keys: Vec<EphemeralKeyPair> = Vec::new();
        let mut i2: usize = 0;
        let n2 = self.outputs.len();
        while i2 < n2
            invariant
                i2 <= n2,
                *self == *old(self),
                old(self).valid(),
                n2 == self.outputs@.len(),
                output_proofs@.len() == i2,
                old(self).state == BuilderState::Proposed,
                spec_counts_in_range(*old(self)),
                intended_transaction_fee <= i64::MAX,
                fee == intended_transaction_fee as i64,
                spec_can_balance(
                    old(self).value_balances.entries@,
                    intended_transaction_fee as int,
                    change_goes_to is Some,
                ),
                output_keys@.len() == i2,
                forall|k: int| 0 <= k < i2 ==> (#[trigger] output_proofs@[k]).valid(),
                forall|k: int| 0 <= k < i2 ==> (#[trigger] output_keys@[k]).valid(),
            decreases n2 - i2,
        {
            let blob = self.outputs[i2].serialize();
            let proof_bytes = match prover.prove(&blob) {
                Ok(p) => p,
                Err(e) => {
                    return Err(
                        IronfishError::new_with_source(IronfishErrorKind::BellpersonSynthesis, e),
                    );
                },
            };
            if proof_bytes.len() != PROOF_SIZE {
                return Err(IronfishError::new(IronfishErrorKind::InvalidOutputProof));
            }
            output_proofs.push(Proof { bytes: proof_bytes });
            output_keys.push(EphemeralKeyPair::new());
            i2 = i2 + 1;
        }
        let mut i3: usize = 0;
        let n3 = change_notes.len();
        while i3 < n3
            invariant
                i3 <= n3,
                *self == *old(self),
                old(self).valid(),
                n3 == change_notes@.len(),
                old(self).state == BuilderState::Proposed,
                spec_counts_in_range(*old(self)),
                intended_transaction_fee <= i64::MAX,
                fee == intended_transaction_fee as i64,
                spec_can_balance(
                    old(self).value_balances.entries@,
                    intended_transaction_fee as int,
                    change_goes_to is Some,
                ),
                change_notes@ == notes_g,
                notes_g.len() == clg.len(),
                forall|j: int| 0 <= j < notes_g.len() ==> (#[trigger] notes_g[j]).valid(),
                output_proofs@.len() == n2 + i3,
                output_keys@.len() == n2 + i3,
                forall|k: int| 0 <= k < n2 + i3 ==> (#[trigger] output_proofs@[k]).valid(),
                forall|k: int| 0 <= k < n2 + i3 ==> (#[trigger] output_keys@[k]).valid(),
            decreases n3 - i3,
        {
            let blob = change_notes[i3].serialize();
            let proof_bytes = match prover.prove(&blob) {
                Ok(p) => p,
                Err(e) => {
                    return Err(
                        IronfishError::new_with_source(IronfishErrorKind::BellpersonSynthesis, e),
                    );
                },
            };
            if proof_bytes.len() != PROOF_SIZE {
                return Err(IronfishError::new(IronfishErrorKind::InvalidOutputProof));
            }
            output_proofs.push(Proof { bytes: proof_bytes });
            output_keys.push(EphemeralKeyPair::new());
            i3 = i3 + 1;
        }
        // prove the mint circuits
        let mut mint_proofs: Vec<Proof> = Vec::new();
        let mut i4: usize = 0;
        let n4 = self.mints.len();
        while i4 < n4
            invariant
                i4 <= n4,
                *self == *old(self),
                old(self).valid(),
                n4 == self.mints@.len(),
                old(self).state == BuilderState::Proposed,
                spec_counts_in_range(*old(self)),
                intended_transaction_fee <= i64::MAX,
                fee == intended_transaction_fee as i64,
                spec_can_balance(
                    old(self).value_balances.entries@,
                    intended_transaction_fee as int,
                    change_goes_to is Some,
                ),
                mint_proofs@.len() == i4,
                forall|k: int| 0 <= k < i4 ==> (#[trigger] mint_proofs@[k]).valid(),
            decreases n4 - i4,
        {
            let blob = Self::mint_circuit_blob(&self.mints[i4]);
            let proof_bytes = match prover.prove(&blob) {
                Ok(p) => p,
                Err(e) => {
                    return Err(
                        IronfishError::new_with_source(IronfishErrorKind::BellpersonSynthesis, e),
                    );
                },
            };
            if proof_bytes.len() != PROOF_SIZE {
                return Err(IronfishError::new(IronfishErrorKind::InvalidMintProof));
            }
            mint_proofs.push(Proof { bytes: proof_bytes });
            i4 = i4 + 1;
        }
        // every proof is in hand: commit the change and finalize
        self.apply_change_outputs(fee, &cl, change_notes);
        self.intended_fee = fee;
        self.state = BuilderState::CircuitsBuilt;
        proof {
            reveal(spec_change_list_ok);
            assert((forall|id: Seq<u8>|
                #[trigger] spec_residual(orig.value_balances.entries@, fee as int, id) == 0)
                ==> clg.len() == 0) by {
                if (forall|id: Seq<u8>|
                    #[trigger] spec_residual(orig.value_balances.entries@, fee as int, id) == 0)
                    && clg.len() > 0 {
                    assert(spec_residual(orig.value_balances.entries@, fee as int, clg[0].0.bytes@)
                        > 0);
                }
            }
        }
        let r2 = self.post_wasm(spend_proofs, output_proofs, output_keys, mint_proofs);
        match r2 {
            Ok(t) => Ok(t),
            Err(e) => {
                proof {
                    assert(false);
                }
                Err(e)
            },
        }
    }

    /// Posts a miner's-fee transaction: the one kind that creates
    /// currency. It has no spends, mints or burns, exactly one native
    /// output, and a negative fee of exactly that output's value. As with
    /// plain posting, nothing is altered until the proof is in hand.
    pub fn post_miners_fee<P: Prover>(&mut self, prover: &mut P) -> (r: Result<
        Transaction,
        IronfishError,
    >)
        requires
            old(self).valid(),
        ensures
            final(self).valid(),
            r matches Err(e) ==> *final(self) == *old(self),
            (r matches Err(e) && e.kind == IronfishErrorKind::InvalidTransaction) <==> old(
                self,
            ).state != BuilderState::Proposed,
            (r matches Err(e) && e.kind == IronfishErrorKind::InvalidMinersFeeTransaction) <==> (
            old(self).state == BuilderState::Proposed && !(old(self).spends@.len() == 0 && old(
                self,
            ).mints@.len() == 0 && old(self).burns@.len() == 0 && old(self).outputs@.len() == 1
                && old(self).outputs@[0].asset_id.bytes@ == spec_native_id())),
            (r matches Err(e) && e.kind == IronfishErrorKind::IllegalValue) <==> (old(self).state
                == BuilderState::Proposed && old(self).spends@.len() == 0 && old(
                self,
            ).mints@.len() == 0 && old(self).burns@.len() == 0 && old(self).outputs@.len() == 1
                && old(self).outputs@[0].asset_id.bytes@ == spec_native_id() && old(
                self,
            ).outputs@[0].value > i64::MAX),
            (old(self).state == BuilderState::Proposed && old(self).spends@.len() == 0 && old(
                self,
            ).mints@.len() == 0 && old(self).burns@.len() == 0 && old(self).outputs@.len() == 1
                && old(self).outputs@[0].asset_id.bytes@ == spec_native_id() && old(
                self,
            ).outputs@[0].value <= i64::MAX) ==> (r matches Err(e) ==> (e.kind
                == IronfishErrorKind::BellpersonSynthesis || e.kind
                == IronfishErrorKind::InvalidOutputProof)),
            r is Ok ==> (old(self).state == BuilderState::Proposed && old(self).spends@.len() == 0
                && old(self).mints@.len() == 0 && old(self).burns@.len() == 0 && old(
                self,
            ).outputs@.len() == 1 && old(self).outputs@[0].asset_id.bytes@ == spec_native_id()
                && old(self).outputs@[0].value <= i64::MAX),
            r matches Ok(t) ==> {
                &&& final(self).state == BuilderState::Posted
                &&& t.valid()
                &&& t.spends@.len() == 0
                &&& t.mints@.len() == 0
                &&& t.burns@.len() == 0
                &&& t.outputs@.len() == 1
                &&& t.fee == -(old(self).outputs@[0].value as int)
                &&& t.version == old(self).version
            },
    {
        if !matches!(self.state, BuilderState::Proposed) {
            return Err(IronfishError::new(IronfishErrorKind::InvalidTransaction));
        }
        if self.spends.len() != 0 || self.mints.len() != 0 || self.burns.len() != 0
            || self.outputs.len() != 1 {
            return Err(IronfishError::new(IronfishErrorKind::InvalidMinersFeeTransaction));
        }
        let native = crate::assets::native_id_bytes();
        if !bytes_eq(self.outputs[0].asset_id.bytes.as_slice(), native.as_slice()) {
            return Err(IronfishError::new(IronfishErrorKind::InvalidMinersFeeTransaction));
        }
        let value = self.outputs[0].value;
        if value > 0x7fff_ffff_ffff_ffffu64 {
            return Err(IronfishError::new(IronfishErrorKind::IllegalValue));
        }
        let blob = self.outputs[0].serialize();
        let keypair = EphemeralKeyPair::new();
        let proof_bytes = match prover.prove(&blob) {
            Ok(p) => p,
            Err(e) => {
                return Err(
                    IronfishError::new_with_source(IronfishErrorKind::BellpersonSynthesis, e),
                );
            },
        };
        if proof_bytes.len() != PROOF_SIZE {
            return Err(IronfishError::new(IronfishErrorKind::InvalidOutputProof));
        }
        // the proof is in hand: finalize
        self.intended_fee = -(value as i64);
        self.state = BuilderState::CircuitsBuilt;
        let mut output_proofs: Vec<Proof> = Vec::new();
        output_proofs.push(Proof { bytes: proof_bytes });
        let mut keys: Vec<EphemeralKeyPair> = Vec::new();
        keys.push(keypair);
        let r2 = self.post_wasm(Vec::new(), output_proofs, keys, Vec::new());
        match r2 {
            Ok(t) => Ok(t),
            Err(e) => {
                proof {
                    assert(false);
                }
                Err(e)
            },
        }
    }
}


/// A valid spend description's wire form is 260 bytes; a sequence of
/// them concatenates at fixed offsets.
proof fn lemma_spends_bytes_props(s: Seq<SpendDescription>)
    requires
        forall|j: int| 0 <= j < s.len() ==> (#[trigger] s[j]).valid(),
    ensures
        spec_spends_bytes(s).len() == 260 * s.len(),
        forall|i: int|
            0 <= i < s.len() ==> #[trigger] spec_spends_bytes(s).subrange(
                260 * i,
                260 * i + 260,
            ) == spec_spend_bytes(s[i]),
    decreases s.len(),
{
    lemma_auto_spec_u64_to_from_le_bytes();
    vstd::bytes::lemma_auto_spec_u32_to_from_le_bytes();
    if s.len() > 0 {
        let pre = s.drop_last();
        assert(forall|j: int| 0 <= j < pre.len() ==> (#[trigger] pre[j]).valid());
        lemma_spends_bytes_props(pre);
        assert(s.last().valid());
        assert(spec_spend_bytes(s.last()).len() == 260);
        assert forall|i: int|
            0 <= i < s.len() implies #[trigger] spec_spends_bytes(s).subrange(
                260 * i,
                260 * i + 260,
            ) == spec_spend_bytes(s[i]) by {
            if i < s.len() - 1 {
                assert(spec_spends_bytes(s).subrange(260 * i, 260 * i + 260) =~= spec_spends_bytes(
                    pre,
                ).subrange(260 * i, 260 * i + 260));
                assert(pre[i] == s[i]);
            } else {
                assert(spec_spends_bytes(s).subrange(260 * i, 260 * i + 260) =~= spec_spend_bytes(
                    s.last(),
                ));
            }
        }
    }
}

/// A valid output description's wire form is 520 bytes; a sequence of
/// them concatenates at fixed offsets.
proof fn lemma_outputs_bytes_props(s: Seq<OutputDescription>)
    requires
        forall|j: int| 0 <= j < s.len() ==> (#[trigger] s[j]).valid(),
    ensures
        spec_outputs_bytes(s).len() == 520 * s.len(),
        forall|i: int|
            0 <= i < s.len() ==> #[trigger] spec_outputs_bytes(s).subrange(
                520 * i,
                520 * i + 520,
            ) == spec_output_bytes(s[i]),
    decreases s.len(),
{
    lemma_auto_spec_u64_to_from_le_bytes();
    vstd::bytes::lemma_auto_spec_u32_to_from_le_bytes();
    if s.len() > 0 {
        let pre = s.drop_last();
        assert(forall|j: int| 0 <= j < pre.len() ==> (#[trigger] pre[j]).valid());
        lemma_outputs_bytes_props(pre);
        assert(s.last().valid());
        assert(spec_output_bytes(s.last()).len() == 520);
        assert forall|i: int|
            0 <= i < s.len() implies #[trigger] spec_outputs_bytes(s).subrange(
                520 * i,
                520 * i + 520,
            ) == spec_output_bytes(s[i]) by {
            if i < s.len() - 1 {
                assert(spec_outputs_bytes(s).subrange(520 * i, 520 * i + 520)
                    =~= spec_outputs_bytes(pre).subrange(520 * i, 520 * i + 520));
                assert(pre[i] == s[i]);
            } else {
                assert(spec_outputs_bytes(s).subrange(520 * i, 520 * i + 520)
                    =~= spec_output_bytes(s.last()));
            }
        }
    }
}

/// A valid burn description's wire form is 40 bytes; a sequence of them
/// concatenates at fixed offsets.
proof fn lemma_burns_bytes_props(s: Seq<BurnDescription>)
    requires
        forall|j: int| 0 <= j < s.len() ==> (#[trigger] s[j]).valid(),
    ensures
        spec_burns_bytes(s).len() == 40 * s.len(),
        forall|i: int|
            0 <= i < s.len() ==> #[trigger] spec_burns_bytes(s).subrange(40 * i, 40 * i + 40)
                == spec_burn_bytes(s[i]),
    decreases s.len(),
{
    lemma_auto_spec_u64_to_from_le_bytes();
    vstd::bytes::lemma_auto_spec_u32_to_from_le_bytes();
    if s.len() > 0 {
        let pre = s.drop_last();
        assert(forall|j: int| 0 <= j < pre.len() ==> (#[trigger] pre[j]).valid());
        lemma_burns_bytes_props(pre);
        assert(s.last().valid());
        assert(spec_burn_bytes(s.last()).len() == 40);
        assert forall|i: int|
            0 <= i < s.len() implies #[trigger] spec_burns_bytes(s).subrange(40 * i, 40 * i + 40)
                == spec_burn_bytes(s[i]) by {
            if i < s.len() - 1 {
                assert(spec_burns_bytes(s).subrange(40 * i, 40 * i + 40) =~= spec_burns_bytes(
                    pre,
                ).subrange(40 * i, 40 * i + 40));
                assert(pre[i] == s[i]);
            } else {
                assert(spec_burns_bytes(s).subrange(40 * i, 40 * i + 40) =~= spec_burn_bytes(
                    s.last(),
                ));
            }
        }
    }
}

/// Width in bytes of one mint description on the wire.
pub open spec fn spec_mint_width(m: MintDescription, v: TransactionVersion) -> int {
    201 + (if v == TransactionVersion::V1 {
        0int
    } else {
        match m.transfer_ownership_to {
            Some(_) => 33int,
            None => 1int,
        }
    }) + 192
}

/// Width in bytes of the first `i` mint descriptions on the wire.
pub open spec fn spec_mints_prefix_len(s: Seq<MintDescription>, v: TransactionVersion, i: int) -> int
    decreases i,
{
    if i <= 0 {
        0
    } else {
        spec_mints_prefix_len(s, v, i - 1) + spec_mint_width(s[i - 1], v)
    }
}

/// A valid mint description's wire form has its version-dependent width;
/// a sequence of them concatenates at the prefix offsets.
proof fn lemma_mints_bytes_props(s: Seq<MintDescription>, v: TransactionVersion)
    requires
        forall|j: int| 0 <= j < s.len() ==> (#[trigger] s[j]).valid(),
    ensures
        spec_mints_bytes(s, v).len() == spec_mints_prefix_len(s, v, s.len() as int),
        forall|i: int|
            0 <= i < s.len() ==> #[trigger] spec_mints_bytes(s, v).subrange(
                spec_mints_prefix_len(s, v, i),
                spec_mints_prefix_len(s, v, i + 1),
            ) == spec_mint_bytes(s[i], v),
        forall|i: int|
            0 <= i < s.len() ==> #[trigger] spec_mint_bytes(s[i], v).len() == spec_mint_width(
                s[i],
                v,
            ),
        forall|i: int|
            0 <= i <= s.len() ==> #[trigger] spec_mints_prefix_len(s, v, i) >= 0,
    decreases s.len(),
{
    lemma_auto_spec_u64_to_from_le_bytes();
    vstd::bytes::lemma_auto_spec_u32_to_from_le_bytes();
    assert forall|i: int| 0 <= i < s.len() implies #[trigger] spec_mint_bytes(s[i], v).len()
        == spec_mint_width(s[i], v) by {
        assert(s[i].valid());
        assert(crate::assets::spec_asset_bytes(s[i].asset).len() == 193);
    }
    assert forall|i: int| 0 <= i <= s.len() implies #[trigger] spec_mints_prefix_len(s, v, i)
        >= 0 by {
        lemma_mints_prefix_len_nonneg(s, v, i);
    }
    if s.len() > 0 {
        let pre = s.drop_last();
        assert(forall|j: int| 0 <= j < pre.len() ==> (#[trigger] pre[j]).valid());
        lemma_mints_bytes_props(pre, v);
        assert forall|i: int| 0 <= i <= pre.len() implies #[trigger] spec_mints_prefix_len(
            pre,
            v,
            i,
        ) == spec_mints_prefix_len(s, v, i) by {
            lemma_mints_prefix_len_agree(s, v, i);
        }
        assert(spec_mints_bytes(s, v).len() == spec_mints_prefix_len(s, v, s.len() as int));
        assert forall|i: int|
            0 <= i < s.len() implies #[trigger] spec_mints_bytes(s, v).subrange(
                spec_mints_prefix_len(s, v, i),
                spec_mints_prefix_len(s, v, i + 1),
            ) == spec_mint_bytes(s[i], v) by {
            lemma_mints_prefix_len_nonneg(s, v, i);
            if i < s.len() - 1 {
                assert(spec_mints_prefix_len(s, v, i + 1) <= spec_mints_prefix_len(
                    s,
                    v,
                    pre.len() as int,
                )) by {
                    lemma_mints_prefix_len_mono(s, v, i + 1, pre.len() as int);
                }
                assert(spec_mints_bytes(s, v).subrange(
                    spec_mints_prefix_len(s, v, i),
                    spec_mints_prefix_len(s, v, i + 1),
                ) =~= spec_mints_bytes(pre, v).subrange(
                    spec_mints_prefix_len(pre, v, i),
                    spec_mints_prefix_len(pre, v, i + 1),
                ));
                assert(pre[i] == s[i]);
            } else {
                assert(spec_mints_bytes(s, v).subrange(
                    spec_mints_prefix_len(s, v, i),
                    spec_mints_prefix_len(s, v, i + 1),
                ) =~= spec_mint_bytes(s.last(), v));
            }
        }
    }
}

/// Prefix widths are nonnegative.
proof fn lemma_mints_prefix_len_nonneg(s: Seq<MintDescription>, v: TransactionVersion, i: int)
    ensures
        spec_mints_prefix_len(s, v, i) >= 0,
    decreases i,
{
    if i > 0 {
        lemma_mints_prefix_len_nonneg(s, v, i - 1);
    }
}

/// Prefix widths grow with the index.
proof fn lemma_mints_prefix_len_mono(s: Seq<MintDescription>, v: TransactionVersion, a: int, b: int)
    requires
        0 <= a <= b,
    ensures
        spec_mints_prefix_len(s, v, a) <= spec_mints_prefix_len(s, v, b),
    decreases b - a,
{
    if a < b {
        lemma_mints_prefix_len_mono(s, v, a, b - 1);
    }
}

/// A prefix width only reads the first `i` entries.
proof fn lemma_mints_prefix_len_agree(s: Seq<MintDescription>, v: TransactionVersion, i: int)
    requires
        0 <= i <= s.drop_last().len(),
        s.len() > 0,
    ensures
        spec_mints_prefix_len(s.drop_last(), v, i) == spec_mints_prefix_len(s, v, i),
    decreases i,
{
    if i > 0 {
        lemma_mints_prefix_len_agree(s, v, i - 1);
        assert(s.drop_last()[i - 1] == s[i - 1]);
    }
}

/// Where every field of a valid transaction's wire form sits: the header
/// bytes, the four description segments at their offsets, and the
/// trailer.
proof fn lemma_transaction_bytes_decompose(t: Transaction)
    requires
        t.valid(),
    ensures
        spec_transaction_bytes(t).len() == 17 + spec_spends_bytes(t.spends@).len()
            + spec_outputs_bytes(t.outputs@).len() + spec_mints_bytes(t.mints@, t.version).len()
            + spec_burns_bytes(t.burns@).len() + 108,
        spec_transaction_bytes(t)[0] == t.version.spec_as_u8(),
        spec_transaction_bytes(t).subrange(1, 5) == spec_u32_to_le_bytes(
            t.spends@.len() as u32,
        ),
        spec_transaction_bytes(t).subrange(5, 9) == spec_u32_to_le_bytes(
            t.outputs@.len() as u32,
        ),
        spec_transaction_bytes(t).subrange(9, 13) == spec_u32_to_le_bytes(
            t.mints@.len() as u32,
        ),
        spec_transaction_bytes(t).subrange(13, 17) == spec_u32_to_le_bytes(
            t.burns@.len() as u32,
        ),
        spec_transaction_bytes(t).subrange(17, 17 + spec_spends_bytes(t.spends@).len() as int)
            == spec_spends_bytes(t.spends@),
        spec_transaction_bytes(t).subrange(
            17 + spec_spends_bytes(t.spends@).len() as int,
            17 + spec_spends_bytes(t.spends@).len() as int + spec_outputs_bytes(t.outputs@).len() as int,
        ) == spec_outputs_bytes(t.outputs@),
        spec_transaction_bytes(t).subrange(
            17 + spec_spends_bytes(t.spends@).len() as int + spec_outputs_bytes(t.outputs@).len() as int,
            17 + spec_spends_bytes(t.spends@).len() as int + spec_outputs_bytes(t.outputs@).len() as int
                + spec_mints_bytes(t.mints@, t.version).len() as int,
        ) == spec_mints_bytes(t.mints@, t.version),
        spec_transaction_bytes(t).subrange(
            17 + spec_spends_bytes(t.spends@).len() as int + spec_outputs_bytes(t.outputs@).len() as int
                + spec_mints_bytes(t.mints@, t.version).len() as int,
            17 + spec_spends_bytes(t.spends@).len() as int + spec_outputs_bytes(t.outputs@).len() as int
                + spec_mints_bytes(t.mints@, t.version).len() as int + spec_burns_bytes(
                t.burns@,
            ).len() as int,
        ) == spec_burns_bytes(t.burns@),
        spec_transaction_bytes(t).subrange(
            spec_transaction_bytes(t).len() - 108,
            spec_transaction_bytes(t).len() - 100,
        ) == spec_u64_to_le_bytes(t.fee as u64),
        spec_transaction_bytes(t).subrange(
            spec_transaction_bytes(t).len() - 100,
            spec_transaction_bytes(t).len() - 96,
        ) == spec_u32_to_le_bytes(t.expiration),
        spec_transaction_bytes(t).subrange(
            spec_transaction_bytes(t).len() - 96,
            spec_transaction_bytes(t).len() - 64,
        ) == t.randomized_public_key@,
        spec_transaction_bytes(t).subrange(
            spec_transaction_bytes(t).len() - 64,
            spec_transaction_bytes(t).len() as int,
        ) == t.binding_signature@,
{
    lemma_auto_spec_u64_to_from_le_bytes();
    vstd::bytes::lemma_auto_spec_u32_to_from_le_bytes();
    let w = spec_transaction_bytes(t);
    let l1 = spec_spends_bytes(t.spends@).len() as int;
    let l2 = spec_outputs_bytes(t.outputs@).len() as int;
    let l3 = spec_mints_bytes(t.mints@, t.version).len() as int;
    let l4 = spec_burns_bytes(t.burns@).len() as int;
    assert(w.len() == 17 + l1 + l2 + l3 + l4 + 108);
    assert(w.subrange(1, 5) =~= spec_u32_to_le_bytes(t.spends@.len() as u32));
    assert(w.subrange(5, 9) =~= spec_u32_to_le_bytes(t.outputs@.len() as u32));
    assert(w.subrange(9, 13) =~= spec_u32_to_le_bytes(t.mints@.len() as u32));
    assert(w.subrange(13, 17) =~= spec_u32_to_le_bytes(t.burns@.len() as u32));
    assert(w.subrange(17, 17 + l1) =~= spec_spends_bytes(t.spends@));
    assert(w.subrange(17 + l1, 17 + l1 + l2) =~= spec_outputs_bytes(t.outputs@));
    assert(w.subrange(17 + l1 + l2, 17 + l1 + l2 + l3) =~= spec_mints_bytes(t.mints@, t.version));
    assert(w.subrange(17 + l1 + l2 + l3, 17 + l1 + l2 + l3 + l4) =~= spec_burns_bytes(t.burns@));
    assert(w.subrange(w.len() - 108, w.len() - 100) =~= spec_u64_to_le_bytes(t.fee as u64));
    assert(w.subrange(w.len() - 100, w.len() - 96) =~= spec_u32_to_le_bytes(t.expiration));
    assert(w.subrange(w.len() - 96, w.len() - 64) =~= t.randomized_public_key@);
    assert(w.subrange(w.len() - 64, w.len() as int) =~= t.binding_signature@);
}

impl Transaction {
    /// Reads a posted transaction back from its wire form. Malformed
    /// input - a wrong length, an unknown version, a non-canonical root,
    /// a bad address or asset record, or trailing bytes - is rejected
    /// deterministically with a typed error. Reading is complete for the
    /// writer: any byte string that is the serialization of some valid
    /// transaction parses successfully, and what it parses to
    /// re-serializes to exactly the input.
    #[verifier::rlimit(100)]
    #[verifier::spinoff_prover]
    pub fn deserialize(bytes: &[u8]) -> (r: Result<Transaction, IronfishError>)
        ensures
            r matches Ok(t) ==> t.valid() && spec_transaction_bytes(t) == bytes@,
            (exists|t: Transaction| t.valid() && spec_transaction_bytes(t) == bytes@) ==> r
                is Ok,
            r matches Err(e) ==> e.kind == IronfishErrorKind::InvalidData || e.kind
                == IronfishErrorKind::InvalidTransactionVersion || e.kind
                == IronfishErrorKind::InvalidPublicAddress || e.kind
                == IronfishErrorKind::InvalidAssetIdentifier,
    {
        let ghost has_wit = exists|t: Transaction| t.valid() && spec_transaction_bytes(t)
            == bytes@;
        let ghost wt = choose|t: Transaction| t.valid() && spec_transaction_bytes(t) == bytes@;
        proof {
            if has_wit {
                lemma_transaction_bytes_decompose(wt);
                lemma_spends_bytes_props(wt.spends@);
                lemma_outputs_bytes_props(wt.outputs@);
                lemma_mints_bytes_props(wt.mints@, wt.version);
                lemma_burns_bytes_props(wt.burns@);
            }
        }
        let total = bytes.len();
        if total < 17 {
            proof {
                assert(!has_wit);
            }
            return Err(IronfishError::new(IronfishErrorKind::InvalidData));
        }
        let version = match TransactionVersion::from_u8(bytes[0]) {
            Ok(v) => v,
            Err(e) => {
                proof {
                    if has_wit {
                        assert(bytes@[0] == wt.version.spec_as_u8());
                        assert(false);
                    }
                }
                return Err(e);
            },
        };
        let c1 = u32_from_le_bytes(slice_range_to_vec(bytes, 1, 5).as_slice());
        let c2 = u32_from_le_bytes(slice_range_to_vec(bytes, 5, 9).as_slice());
        let c3 = u32_from_le_bytes(slice_range_to_vec(bytes, 9, 13).as_slice());
        let c4 = u32_from_le_bytes(slice_range_to_vec(bytes, 13, 17).as_slice());
        let mut offset: usize = 17;
        proof {
            lemma_auto_spec_u64_to_from_le_bytes();
            vstd::bytes::lemma_auto_spec_u32_to_from_le_bytes();
            assert(seq![bytes@[0]] + spec_u32_to_le_bytes(c1) + spec_u32_to_le_bytes(c2)
                + spec_u32_to_le_bytes(c3) + spec_u32_to_le_bytes(c4) =~= bytes@.subrange(0, 17));
            if has_wit {
                assert(bytes@.subrange(1, 5) == spec_u32_to_le_bytes(wt.spends@.len() as u32));
                assert(c1 == wt.spends@.len());
                assert(c2 == wt.outputs@.len());
                assert(c3 == wt.mints@.len());
                assert(c4 == wt.burns@.len());
                assert(version == wt.version);
            }
        }
        // spends
        let mut spends: Vec<SpendDescription> = Vec::new();
        let mut i: usize = 0;
        while i < c1 as usize
            invariant
                i <= c1,
                17 <= offset <= total,
                total == bytes@.len(),
                offset == 17 + 260 * i,
                spends@.len() == i,
                forall|k: int| 0 <= k < i ==> (#[trigger] spends@[k]).valid(),
                spec_spends_bytes(spends@) == bytes@.subrange(17, offset as int),
                has_wit == (exists|t: Transaction|
                    t.valid() && spec_transaction_bytes(t) == bytes@),
                wt == (choose|t: Transaction| t.valid() && spec_transaction_bytes(t) == bytes@),
                has_wit ==> (c1 == wt.spends@.len() && c2 == wt.outputs@.len() && c3
                    == wt.mints@.len() && c4 == wt.burns@.len() && version == wt.version),
            decreases c1 - i,
        {
            proof {
                if has_wit {
                    lemma_transaction_bytes_decompose(wt);
                    lemma_spends_bytes_props(wt.spends@);
                    lemma_mints_bytes_props(wt.mints@, wt.version);
                    assert(spec_mints_prefix_len(wt.mints@, wt.version, wt.mints@.len() as int)
                        >= 0);
                    assert(bytes@.subrange(17 + 260 * (i as int), 17 + 260 * (i as int) + 260)
                        =~= spec_spends_bytes(wt.spends@).subrange(
                        260 * (i as int),
                        260 * (i as int) + 260,
                    ));
                    assert(bytes@.subrange(17 + 260 * (i as int), 17 + 260 * (i as int) + 260)
                        == spec_spend_bytes(wt.spends@[i as int]));
                    assert(wt.spends@[i as int].valid());
                    assert(spec_spend_bytes(wt.spends@[i as int]).subrange(4, 36)
                        =~= wt.spends@[i as int].root_hash@);
                }
            }
            if total - offset < 260 {
                proof {
                    assert(!has_wit);
                }
                return Err(IronfishError::new(IronfishErrorKind::InvalidData));
            }
            let tree_size = u32_from_le_bytes(
                slice_range_to_vec(bytes, offset, offset + 4).as_slice(),
            );
            let root_hash = slice_range_to_vec(bytes, offset + 4, offset + 36);
            let nullifier = slice_range_to_vec(bytes, offset + 36, offset + 68);
            let proof = slice_range_to_vec(bytes, offset + 68, offset + 260);
            if !crate::crypto::base_repr_valid(root_hash.as_slice()) {
                proof {
                    if has_wit {
                        assert(root_hash@ =~= spec_spend_bytes(wt.spends@[i as int]).subrange(
                            4,
                            36,
                        ));
                        assert(base_canonical(root_hash@));
                    }
                    assert(!has_wit);
                }
                return Err(IronfishError::new(IronfishErrorKind::InvalidData));
            }
            let d = SpendDescription {
                tree_size,
                root_hash,
                nullifier,
                proof: Proof { bytes: proof },
            };
            proof {
                vstd::bytes::lemma_auto_spec_u32_to_from_le_bytes();
                assert(spec_spend_bytes(d) =~= bytes@.subrange(
                    offset as int,
                    offset + 260 as int,
                ));
                assert(spends@.push(d).drop_last() =~= spends@);
                assert(spec_spends_bytes(spends@.push(d)) =~= bytes@.subrange(
                    17,
                    offset + 260 as int,
                ));
            }
            spends.push(d);
            offset = offset + 260;
            i = i + 1;
        }
        let ghost spends_end = offset as int;
        // outputs
        let mut outputs: Vec<OutputDescription> = Vec::new();
        let mut i2: usize = 0;
        while i2 < c2 as usize
            invariant
                i2 <= c2,
                17 <= spends_end <= offset <= total,
                total == bytes@.len(),
                spends_end == 17 + 260 * c1,
                offset == spends_end + 520 * i2,
                outputs@.len() == i2,
                forall|k: int| 0 <= k < i2 ==> (#[trigger] outputs@[k]).valid(),
                spec_outputs_bytes(outputs@) == bytes@.subrange(spends_end, offset as int),
                has_wit == (exists|t: Transaction|
                    t.valid() && spec_transaction_bytes(t) == bytes@),
                wt == (choose|t: Transaction| t.valid() && spec_transaction_bytes(t) == bytes@),
                has_wit ==> (c1 == wt.spends@.len() && c2 == wt.outputs@.len() && c3
                    == wt.mints@.len() && c4 == wt.burns@.len() && version == wt.version),
            decreases c2 - i2,
        {
            proof {
                if has_wit {
                    lemma_transaction_bytes_decompose(wt);
                    lemma_spends_bytes_props(wt.spends@);
                    lemma_outputs_bytes_props(wt.outputs@);
                    lemma_mints_bytes_props(wt.mints@, wt.version);
                    assert(spec_mints_prefix_len(wt.mints@, wt.version, wt.mints@.len() as int)
                        >= 0);
                    assert(bytes@.subrange(
                        spends_end + 520 * (i2 as int),
                        spends_end + 520 * (i2 as int) + 520,
                    ) =~= spec_outputs_bytes(wt.outputs@).subrange(
                        520 * (i2 as int),
                        520 * (i2 as int) + 520,
                    ));
                    assert(bytes@.subrange(
                        spends_end + 520 * (i2 as int),
                        spends_end + 520 * (i2 as int) + 520,
                    ) == spec_output_bytes(wt.outputs@[i2 as int]));
                    assert(wt.outputs@[i2 as int].valid());
                    let m = wt.outputs@[i2 as int].merkle_note;
                    assert(spec_output_bytes(wt.outputs@[i2 as int]).subrange(0, 328)
                        =~= crate::merkle_note::spec_merkle_note_bytes(m));
                    assert(crate::merkle_note::spec_merkle_note_bytes(m).subrange(0, 32)
                        =~= m.value_commitment@);
                    assert(crate::merkle_note::spec_merkle_note_bytes(m).subrange(32, 64)
                        =~= m.note_commitment@);
                    assert(crate::merkle_note::spec_merkle_note_bytes(m).subrange(64, 96)
                        =~= m.ephemeral_public_key@);
                }
            }
            if total - offset < 520 {
                proof {
                    assert(!has_wit);
                }
                return Err(IronfishError::new(IronfishErrorKind::InvalidData));
            }
            let note_bytes = slice_range_to_vec(bytes, offset, offset + 328);
            let merkle_note = match MerkleNote::deserialize(note_bytes.as_slice()) {
                Ok(m) => m,
                Err(e) => {
                    proof {
                        if has_wit {
                            let m = wt.outputs@[i2 as int].merkle_note;
                            assert(note_bytes@ =~= crate::merkle_note::spec_merkle_note_bytes(m));
                            assert(note_bytes@.subrange(0, 32) =~= m.value_commitment@);
                            assert(note_bytes@.subrange(32, 64) =~= m.note_commitment@);
                            assert(note_bytes@.subrange(64, 96) =~= m.ephemeral_public_key@);
                        }
                        assert(!has_wit);
                    }
                    return Err(e);
                },
            };
            let proof = slice_range_to_vec(bytes, offset + 328, offset + 520);
            let d = OutputDescription { merkle_note, proof: Proof { bytes: proof } };
            proof {
                assert(spec_output_bytes(d) =~= bytes@.subrange(
                    offset as int,
                    offset + 520 as int,
                ));
                assert(outputs@.push(d).drop_last() =~= outputs@);
                assert(spec_outputs_bytes(outputs@.push(d)) =~= bytes@.subrange(
                    spends_end,
                    offset + 520 as int,
                ));
            }
            outputs.push(d);
            offset = offset + 520;
            i2 = i2 + 1;
        }
        let ghost outputs_end = offset as int;
        // mints
        let mut mints: Vec<MintDescription> = Vec::new();
        let mut i3: usize = 0;
        while i3 < c3 as usize
            invariant
                i3 <= c3,
                17 <= outputs_end <= offset <= total,
                total == bytes@.len(),
                spends_end == 17 + 260 * c1,
                outputs_end == spends_end + 520 * c2,
                mints@.len() == i3,
                forall|k: int| 0 <= k < i3 ==> (#[trigger] mints@[k]).valid(),
                version == TransactionVersion::V1 ==> forall|k: int|
                    0 <= k < i3 ==> (#[trigger] mints@[k]).transfer_ownership_to is None,
                spec_mints_bytes(mints@, version) == bytes@.subrange(outputs_end, offset as int),
                has_wit == (exists|t: Transaction|
                    t.valid() && spec_transaction_bytes(t) == bytes@),
                wt == (choose|t: Transaction| t.valid() && spec_transaction_bytes(t) == bytes@),
                has_wit ==> (c1 == wt.spends@.len() && c2 == wt.outputs@.len() && c3
                    == wt.mints@.len() && c4 == wt.burns@.len() && version == wt.version),
                has_wit ==> offset == outputs_end + spec_mints_prefix_len(
                    wt.mints@,
                    wt.version,
                    i3 as int,
                ),
            decreases c3 - i3,
        {
            let ghost w_start = offset as int;
            let ghost mw: int = 0int;
            proof {
                if has_wit {
                    lemma_transaction_bytes_decompose(wt);
                    lemma_spends_bytes_props(wt.spends@);
                    lemma_outputs_bytes_props(wt.outputs@);
                    lemma_mints_bytes_props(wt.mints@, wt.version);
                    lemma_mints_prefix_len_mono(wt.mints@, wt.version, i3 + 1, c3 as int);
                    assert(bytes@.subrange(
                        outputs_end + spec_mints_prefix_len(wt.mints@, wt.version, i3 as int),
                        outputs_end + spec_mints_prefix_len(wt.mints@, wt.version, i3 + 1),
                    ) =~= spec_mints_bytes(wt.mints@, wt.version).subrange(
                        spec_mints_prefix_len(wt.mints@, wt.version, i3 as int),
                        spec_mints_prefix_len(wt.mints@, wt.version, i3 + 1),
                    ));
                    assert(bytes@.subrange(
                        w_start,
                        w_start + spec_mint_width(wt.mints@[i3 as int], wt.version),
                    ) == spec_mint_bytes(wt.mints@[i3 as int], wt.version));
                    assert(wt.mints@[i3 as int].valid());
                    let a = wt.mints@[i3 as int].asset;
                    assert(spec_mint_bytes(wt.mints@[i3 as int], wt.version).subrange(0, 193)
                        =~= crate::assets::spec_asset_bytes(a));
                    assert(crate::assets::spec_asset_bytes(a).subrange(0, 32)
                        =~= a.creator.bytes@);
                    assert(crate::assets::spec_asset_bytes(a).subrange(32, 64) =~= a.name@);
                    assert(crate::assets::spec_asset_bytes(a).subrange(64, 160) =~= a.metadata@);
                    assert(crate::assets::spec_asset_bytes(a)[160] == a.nonce);
                    assert(crate::assets::spec_asset_bytes(a).subrange(161, 193) =~= a.id.bytes@);
                }
            }
            if total - offset < 201 {
                proof {
                    assert(!has_wit);
                }
                return Err(IronfishError::new(IronfishErrorKind::InvalidData));
            }
            let asset_bytes = slice_range_to_vec(bytes, offset, offset + 193);
            let asset = match Asset::deserialize(asset_bytes.as_slice()) {
                Ok(a) => a,
                Err(e) => {
                    proof {
                        if has_wit {
                            let a = wt.mints@[i3 as int].asset;
                            assert(asset_bytes@ =~= crate::assets::spec_asset_bytes(a));
                            assert(asset_bytes@.subrange(0, 32) =~= a.creator.bytes@);
                            assert(asset_bytes@.subrange(32, 64) =~= a.name@);
                            assert(asset_bytes@.subrange(64, 160) =~= a.metadata@);
                            assert(asset_bytes@[160] == a.nonce);
                            assert(asset_bytes@.subrange(161, 193) =~= a.id.bytes@);
                        }
                        assert(!has_wit);
                    }
                    return Err(e);
                },
            };
            let value = u64_from_le_bytes(
                slice_range_to_vec(bytes, offset + 193, offset + 201).as_slice(),
            );
            let mut mid = offset + 201;
            let transfer_ownership_to: Option<PublicAddress> = if matches!(
                version,
                TransactionVersion::V1,
            ) {
                None
            } else {
                if total - mid < 1 {
                    proof {
                        assert(!has_wit);
                    }
                    return Err(IronfishError::new(IronfishErrorKind::InvalidData));
                }
                let flag = bytes[mid];
                if flag == 0 {
                    mid = mid + 1;
                    None
                } else if flag == 1 {
                    if total - mid < 33 {
                        proof {
                            assert(!has_wit);
                        }
                        return Err(IronfishError::new(IronfishErrorKind::InvalidData));
                    }
                    let owner_bytes = slice_range_to_vec(bytes, mid + 1, mid + 33);
                    let owner = match PublicAddress::new(owner_bytes) {
                        Ok(a) => a,
                        Err(e) => {
                            proof {
                                if has_wit {
                                    let mb = spec_mint_bytes(wt.mints@[i3 as int], wt.version);
                                    assert(flag == mb[201]);
                                    match wt.mints@[i3 as int].transfer_ownership_to {
                                        Some(o) => {
                                            assert(o.valid());
                                            assert(mb.subrange(202, 234) =~= o.bytes@);
                                            assert(owner_bytes@ =~= mb.subrange(202, 234));
                                        },
                                        None => {
                                            assert(mb[201] == 0u8);
                                        },
                                    }
                                }
                                assert(!has_wit);
                            }
                            return Err(e);
                        },
                    };
                    mid = mid + 33;
                    Some(owner)
                } else {
                    proof {
                        if has_wit {
                            let mb = spec_mint_bytes(wt.mints@[i3 as int], wt.version);
                            assert(flag == mb[201]);
                            match wt.mints@[i3 as int].transfer_ownership_to {
                                Some(_) => {
                                    assert(mb[201] == 1u8);
                                },
                                None => {
                                    assert(mb[201] == 0u8);
                                },
                            }
                        }
                        assert(!has_wit);
                    }
                    return Err(IronfishError::new(IronfishErrorKind::InvalidData));
                }
            };
            if total - mid < 192 {
                proof {
                    assert(!has_wit);
                }
                return Err(IronfishError::new(IronfishErrorKind::InvalidData));
            }
            let proof = slice_range_to_vec(bytes, mid, mid + 192);
            let d = MintDescription {
                asset,
                value,
                transfer_ownership_to,
                proof: Proof { bytes: proof },
            };
            proof {
                lemma_auto_spec_u64_to_from_le_bytes();
                assert(spec_mint_bytes(d, version) =~= bytes@.subrange(
                    offset as int,
                    mid + 192 as int,
                ));
                assert(mints@.push(d).drop_last() =~= mints@);
                assert(spec_mints_bytes(mints@.push(d), version) =~= bytes@.subrange(
                    outputs_end,
                    mid + 192 as int,
                ));
                if has_wit {
                    assert(mid + 192 - w_start == spec_mint_width(
                        wt.mints@[i3 as int],
                        wt.version,
                    ));
                }
            }
            mints.push(d);
            offset = mid + 192;
            i3 = i3 + 1;
        }
        let ghost mints_end = offset as int;
        // burns
        let mut burns: Vec<BurnDescription> = Vec::new();
        let mut i4: usize = 0;
        while i4 < c4 as usize
            invariant
                i4 <= c4,
                17 <= mints_end <= offset <= total,
                total == bytes@.len(),
                spends_end == 17 + 260 * c1,
                outputs_end == spends_end + 520 * c2,
                offset == mints_end + 40 * i4,
                burns@.len() == i4,
                forall|k: int| 0 <= k < i4 ==> (#[trigger] burns@[k]).valid(),
                spec_burns_bytes(burns@) == bytes@.subrange(mints_end, offset as int),
                has_wit == (exists|t: Transaction|
                    t.valid() && spec_transaction_bytes(t) == bytes@),
                wt == (choose|t: Transaction| t.valid() && spec_transaction_bytes(t) == bytes@),
                has_wit ==> (c1 == wt.spends@.len() && c2 == wt.outputs@.len() && c3
                    == wt.mints@.len() && c4 == wt.burns@.len() && version == wt.version),
                has_wit ==> mints_end == outputs_end + spec_mints_prefix_len(
                    wt.mints@,
                    wt.version,
                    c3 as int,
                ),
            decreases c4 - i4,
        {
            proof {
                if has_wit {
                    lemma_transaction_bytes_decompose(wt);
                    lemma_spends_bytes_props(wt.spends@);
                    lemma_outputs_bytes_props(wt.outputs@);
                    lemma_mints_bytes_props(wt.mints@, wt.version);
                    lemma_burns_bytes_props(wt.burns@);
                    assert(bytes@.subrange(
                        mints_end + 40 * (i4 as int),
                        mints_end + 40 * (i4 as int) + 40,
                    ) =~= spec_burns_bytes(wt.burns@).subrange(
                        40 * (i4 as int),
                        40 * (i4 as int) + 40,
                    ));
                    assert(bytes@.subrange(
                        mints_end + 40 * (i4 as int),
                        mints_end + 40 * (i4 as int) + 40,
                    ) == spec_burn_bytes(wt.burns@[i4 as int]));
                    assert(wt.burns@[i4 as int].valid());
                    assert(spec_burn_bytes(wt.burns@[i4 as int]).subrange(0, 32)
                        =~= wt.burns@[i4 as int].asset_id.bytes@);
                }
            }
            if total - offset < 40 {
                proof {
                    assert(!has_wit);
                }
                return Err(IronfishError::new(IronfishErrorKind::InvalidData));
            }
            let id_bytes = slice_range_to_vec(bytes, offset, offset + 32);
            let asset_id = match AssetIdentifier::new(id_bytes) {
                Ok(a) => a,
                Err(e) => {
                    proof {
                        if has_wit {
                            assert(id_bytes@ =~= spec_burn_bytes(
                                wt.burns@[i4 as int],
                            ).subrange(0, 32));
                        }
                        assert(!has_wit);
                    }
                    return Err(IronfishError::new(IronfishErrorKind::InvalidAssetIdentifier));
                },
            };
            let value = u64_from_le_bytes(
                slice_range_to_vec(bytes, offset + 32, offset + 40).as_slice(),
            );
            let d = BurnDescription { asset_id, value };
            proof {
                lemma_auto_spec_u64_to_from_le_bytes();
                assert(spec_burn_bytes(d) =~= bytes@.subrange(offset as int, offset + 40 as int));
                assert(burns@.push(d).drop_last() =~= burns@);
                assert(spec_burns_bytes(burns@.push(d)) =~= bytes@.subrange(
                    mints_end,
                    offset + 40 as int,
                ));
            }
            burns.push(d);
            offset = offset + 40;
            i4 = i4 + 1;
        }
        // trailer: fee, expiration, randomized key, signature
        proof {
            if has_wit {
                lemma_transaction_bytes_decompose(wt);
                lemma_spends_bytes_props(wt.spends@);
                lemma_outputs_bytes_props(wt.outputs@);
                lemma_mints_bytes_props(wt.mints@, wt.version);
                lemma_burns_bytes_props(wt.burns@);
                assert(total - offset == 108);
            }
        }
        if total - offset != 108 {
            proof {
                assert(!has_wit);
            }
            return Err(IronfishError::new(IronfishErrorKind::InvalidData));
        }
        let fee_u64 = u64_from_le_bytes(slice_range_to_vec(bytes, offset, offset + 8).as_slice());
        let fee: i64 = fee_u64 as i64;
        let expiration = u32_from_le_bytes(
            slice_range_to_vec(bytes, offset + 8, offset + 12).as_slice(),
        );
        let randomized_public_key = slice_range_to_vec(bytes, offset + 12, offset + 44);
        let binding_signature = slice_range_to_vec(bytes, offset + 44, offset + 108);
        let t = Transaction {
            version,
            spends,
            outputs,
            mints,
            burns,
            fee,
            expiration,
            randomized_public_key,
            binding_signature,
        };
        proof {
            lemma_auto_spec_u64_to_from_le_bytes();
            vstd::bytes::lemma_auto_spec_u32_to_from_le_bytes();
            assert((fee as u64) == fee_u64) by (bit_vector)
                requires
                    fee == fee_u64 as i64,
            ;
            assert(spec_transaction_bytes(t) =~= bytes@);
        }
        Ok(t)
    }
}

} // verus!
