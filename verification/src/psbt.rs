//! Partially signed transactions: what the wallet reads and writes of them, and
//! their binary and base64 forms.

use crate::encoding::{
    base64_bytes, base64_decode, base64_encode, base64_refusal, base64_text,
    lemma_base64_round_trip,
};
use crate::text::concat;
use crate::tx::{
    bare_size, encodes, total_value, unsigned_tx_encoded, views, TxIn, TxOut, TxOutView, UnsignedTx,
    UnsignedTxView,
};
use bitcoin::consensus::{deserialize, serialize};
use bitcoin::key::XOnlyPublicKey;
use bitcoin::{Amount, ScriptBuf, Witness};
use vstd::prelude::*;
use vstd::slice::*;

verus! {

/// The view of what an option holds.
pub open spec fn option_view<T: View>(o: Option<T>) -> Option<T::V> {
    match o {
        Some(t) => Some(t@),
        None => None,
    }
}

/// What the wallet reads of a PSBT input.
pub struct PsbtInputView {
    pub witness_utxo: Option<TxOutView>,
    pub non_witness_values: Option<Seq<u64>>,
    pub tap_internal_key: Option<Seq<u8>>,
    pub tap_key_sig: Option<Seq<u8>>,
    pub final_script_witness: Option<Seq<Seq<u8>>>,
}

/// The fields of a PSBT input that the wallet reads or writes.
#[derive(Clone, Debug)]
pub struct PsbtInput {
    /// The output that the input spends.
    pub witness_utxo: Option<TxOut>,
    /// The amounts of the outputs of the whole transaction that the input spends
    /// from, where the PSBT holds that transaction.
    pub non_witness_values: Option<Vec<u64>>,
    /// The x-only internal key, thirty-two bytes.
    pub tap_internal_key: Option<Vec<u8>>,
    /// The key-path signature, with its sighash type behind it where that is not
    /// the default.
    pub tap_key_sig: Option<Vec<u8>>,
    /// The items of the final witness.
    pub final_script_witness: Option<Vec<Vec<u8>>>,
}

impl View for PsbtInput {
    type V = PsbtInputView;

    open spec fn view(&self) -> PsbtInputView {
        PsbtInputView {
            witness_utxo: option_view(self.witness_utxo),
            non_witness_values: option_view(self.non_witness_values),
            tap_internal_key: option_view(self.tap_internal_key),
            tap_key_sig: option_view(self.tap_key_sig),
            final_script_witness: match self.final_script_witness {
                Some(items) => Some(views(items@)),
                None => None,
            },
        }
    }
}

/// The input that a PSBT starts out with.
pub open spec fn blank_input() -> PsbtInputView {
    PsbtInputView {
        witness_utxo: None,
        non_witness_values: None,
        tap_internal_key: None,
        tap_key_sig: None,
        final_script_witness: None,
    }
}

/// What the binary form of a PSBT holds, as far as the wallet reads it.
pub struct PsbtContent {
    pub unsigned_tx: UnsignedTxView,
    pub inputs: Seq<PsbtInputView>,
}

/// What a PSBT holds.
pub struct PsbtView {
    pub unsigned_tx: UnsignedTxView,
    pub inputs: Seq<PsbtInputView>,
    pub origin: Option<Seq<u8>>,
}

/// A partially signed transaction: its unsigned transaction, the fields of its
/// inputs that the wallet works on, and the binary PSBT that it was read from, from
/// which all other fields are taken when it is written out. One that was not read has
/// no other fields.
#[derive(Clone, Debug)]
pub struct Psbt {
    pub unsigned_tx: UnsignedTx,
    pub inputs: Vec<PsbtInput>,
    pub origin: Option<Vec<u8>>,
}

impl View for Psbt {
    type V = PsbtView;

    open spec fn view(&self) -> PsbtView {
        PsbtView {
            unsigned_tx: self.unsigned_tx@,
            inputs: views(self.inputs@),
            origin: option_view(self.origin),
        }
    }
}

/// The size up to which the decoders read a part: the global fields of a PSBT taken
/// together, each value in it together with its length, and the items of a witness.
pub const MAX_PART_SIZE: usize = 4_000_000;

/// The bytes that every binary PSBT starts with.
pub open spec fn psbt_magic() -> Seq<u8> {
    seq![0x70u8, 0x73, 0x62, 0x74, 0xff]
}

/// What `Psbt::deserialize` of the `bitcoin` crate finds in bytes, or the words with
/// which it refuses them.
pub uninterp spec fn psbt_decoded(bytes: Seq<u8>) -> Result<PsbtContent, Seq<char>>;

/// Whether bytes are a PSBT with this transaction and these inputs.
pub open spec fn holds(
    bytes: Seq<u8>,
    unsigned_tx: UnsignedTxView,
    inputs: Seq<PsbtInputView>,
) -> bool {
    psbt_decoded(bytes) == Ok::<PsbtContent, Seq<char>>(PsbtContent { unsigned_tx, inputs })
}

/// What `Psbt::serialize` of the `bitcoin` crate writes for a PSBT.
pub uninterp spec fn psbt_encoded(psbt: PsbtView) -> Seq<u8>;

/// What `Psbt::extract_tx` of the `bitcoin` crate gives for a PSBT: a transaction in its
/// consensus encoding, or the words of the refusal.
pub uninterp spec fn extracted_tx(psbt: PsbtView) -> Result<Seq<u8>, Seq<char>>;

/// The final witnesses of inputs; an input without one counts as having an empty one.
pub open spec fn final_witnesses(inputs: Seq<PsbtInputView>) -> Seq<Seq<Seq<u8>>> {
    inputs.map_values(
        |i: PsbtInputView|
            match i.final_script_witness {
                Some(items) => items,
                None => Seq::empty(),
            },
    )
}

/// Whether `XOnlyPublicKey::from_slice` accepts bytes: thirty-two of them, the
/// first coordinate of a point of the curve.
pub uninterp spec fn is_xonly_key(bytes: Seq<u8>) -> bool;

/// Whether bytes have the form of a Taproot signature: sixty-four bytes, or one
/// more that is a sighash type other than the default.
pub open spec fn is_taproot_signature(s: Seq<u8>) -> bool {
    ||| s.len() == 64
    ||| s.len() == 65 && (1 <= s[64] <= 3 || 0x81 <= s[64] <= 0x83)
}

/// The space that a length takes.
pub open spec fn length_size(n: int) -> int {
    if n < 0xfd {
        1
    } else if n <= 0xffff {
        3
    } else if n <= 0xffff_ffff {
        5
    } else {
        9
    }
}

/// The space that bytes take together with their length.
pub open spec fn prefixed_size(n: int) -> int {
    length_size(n) + n
}

/// The space that witness items take, each with its length.
pub open spec fn witness_size(items: Seq<Seq<u8>>) -> int
    decreases items.len(),
{
    if items.len() == 0 {
        0
    } else {
        witness_size(items.drop_last()) + prefixed_size(items.last().len() as int)
    }
}

impl PsbtInputView {
    /// Whether the fields have values that a PSBT can hold.
    pub open spec fn wf(self) -> bool {
        &&& self.tap_internal_key matches Some(key) ==> is_xonly_key(key)
        &&& self.tap_key_sig matches Some(sig) ==> is_taproot_signature(sig)
        &&& self.final_script_witness matches Some(items) ==> witness_size(items) <= u32::MAX
    }

    /// Whether the values of the wallet's fields keep the limits of the decoder: the
    /// output that is spent, which is an amount of eight bytes and a script, and the final
    /// witness, which is the number of its items and the items. The others are small.
    pub open spec fn fits(self) -> bool {
        &&& self.witness_utxo matches Some(utxo) ==> prefixed_size(
            8 + prefixed_size(utxo.script_pubkey.len() as int),
        ) <= MAX_PART_SIZE
        &&& self.final_script_witness matches Some(items) ==> prefixed_size(
            length_size(items.len() as int) + witness_size(items),
        ) <= MAX_PART_SIZE
    }
}

impl PsbtView {
    /// Whether there is one input for each input of the transaction, and their fields
    /// have values that a PSBT can hold; where the PSBT was read, the transaction and
    /// what the wallet only reads of the inputs must be from there.
    pub open spec fn wf(self) -> bool {
        &&& self.unsigned_tx.inputs.len() == self.inputs.len()
        &&& forall|i: int| 0 <= i < self.inputs.len() ==> (#[trigger] self.inputs[i]).wf()
        &&& match self.origin {
            Some(bytes) => {
                &&& psbt_decoded(bytes) matches Ok(content)
                &&& content.unsigned_tx == self.unsigned_tx
                &&& content.inputs.len() == self.inputs.len()
                &&& forall|i: int|
                    0 <= i < self.inputs.len() ==> (#[trigger] self.inputs[i]).non_witness_values
                        == content.inputs[i].non_witness_values
            },
            None => forall|i: int|
                0 <= i < self.inputs.len() ==> (#[trigger] self.inputs[i]).non_witness_values
                    is None,
        }
    }

    /// Whether the parts of the PSBT keep the limits of the decoder: the values of the
    /// inputs do, and the global fields of a PSBT that was not read do, which are the
    /// transaction with its length, a key of two bytes and a separator of one. What was
    /// read keeps them.
    pub open spec fn fits(self) -> bool {
        &&& forall|i: int| 0 <= i < self.inputs.len() ==> (#[trigger] self.inputs[i]).fits()
        &&& self.origin is None ==> 3 + prefixed_size(bare_size(self.unsigned_tx))
            <= MAX_PART_SIZE
    }

    /// Whether the witnesses are small enough for the decoder of transactions.
    pub open spec fn has_small_witnesses(self) -> bool {
        forall|i: int|
            0 <= i < self.inputs.len() ==> witness_size(
                #[trigger] final_witnesses(self.inputs)[i],
            ) <= MAX_PART_SIZE
    }
}

/// What the inputs of a PSBT bring in.
pub enum Funding {
    /// The amounts are known; this is their total.
    Total(nat),
    /// An input says nothing of the output that it spends.
    Missing,
    /// An input names an output that the transaction it spends from does not have.
    OutOfBounds,
    /// The amounts exceed what sixty-four bits hold.
    Overflow,
}

/// The amount that an input spends.
pub open spec fn spent_value(input: PsbtInputView, vout: u32) -> Funding {
    match (input.witness_utxo, input.non_witness_values) {
        (Some(utxo), _) => Funding::Total(utxo.value as nat),
        (None, Some(values)) => if vout < values.len() {
            Funding::Total(values[vout as int] as nat)
        } else {
            Funding::OutOfBounds
        },
        (None, None) => Funding::Missing,
    }
}

/// What the first `n` inputs bring in; the first input without a usable amount
/// decides.
pub open spec fn funding(psbt: PsbtView, n: nat) -> Funding
    decreases n,
{
    if n == 0 {
        Funding::Total(0)
    } else {
        match funding(psbt, (n - 1) as nat) {
            Funding::Total(before) => match spent_value(
                psbt.inputs[n - 1],
                psbt.unsigned_tx.inputs[n - 1].vout,
            ) {
                Funding::Total(value) => if before + value <= u64::MAX {
                    Funding::Total(before + value)
                } else {
                    Funding::Overflow
                },
                other => other,
            },
            other => other,
        }
    }
}

impl PsbtView {
    /// What all inputs bring in.
    pub open spec fn total_funding(self) -> Funding {
        funding(self, self.inputs.len())
    }
}

/// `Psbt::deserialize`, of which this gives the unsigned transaction.
#[verifier::external_body]
fn decode_unsigned_tx(bytes: &[u8]) -> (r: Result<UnsignedTx, String>)
    ensures
        match r {
            Ok(tx) => psbt_decoded(bytes@) matches Ok(content) && content.unsigned_tx == tx@,
            Err(e) => psbt_decoded(bytes@) matches Err(words) && words == e@,
        },
{
    let p = bitcoin::Psbt::deserialize(bytes).map_err(|e| e.to_string())?.unsigned_tx;
    Ok(UnsignedTx {
        version: p.version.0,
        lock_time: p.lock_time.to_consensus_u32(),
        inputs: p.input.iter().map(|i| TxIn {
            txid: crate::tx::Txid { bytes: bitcoin_hashes::Hash::to_byte_array(i.previous_output.txid) },
            vout: i.previous_output.vout,
            sequence: i.sequence.0,
        }).collect(),
        outputs: p.output.iter().map(|o| TxOut { value: o.value.to_sat(), script_pubkey: o.script_pubkey.to_bytes() }).collect(),
    })
}

/// `Psbt::deserialize`, of which this gives the inputs. There is one for each input
/// of the unsigned transaction, their fields have values that a PSBT can hold and that
/// keep the limits of the decoder, and the bytes start with the magic of the format.
#[verifier::external_body]
fn decode_inputs(bytes: &[u8]) -> (r: Result<Vec<PsbtInput>, String>)
    ensures
        match r {
            Ok(inputs) => {
                &&& psbt_decoded(bytes@) matches Ok(content)
                &&& content.inputs == views(inputs@)
                &&& content.inputs.len() == content.unsigned_tx.inputs.len()
                &&& forall|i: int|
                    0 <= i < content.inputs.len() ==> (#[trigger] content.inputs[i]).wf()
                        && content.inputs[i].fits()
                &&& psbt_magic().is_prefix_of(bytes@)
            },
            Err(e) => psbt_decoded(bytes@) matches Err(words) && words == e@,
        },
{
    let p = bitcoin::Psbt::deserialize(bytes).map_err(|e| e.to_string())?;
    Ok(p.inputs.iter().map(|i| PsbtInput {
        witness_utxo: i.witness_utxo.as_ref().map(|o| TxOut { value: o.value.to_sat(), script_pubkey: o.script_pubkey.to_bytes() }),
        non_witness_values: i.non_witness_utxo.as_ref().map(|t| t.output.iter().map(|o| o.value.to_sat()).collect()),
        tap_internal_key: i.tap_internal_key.map(|k| k.serialize().to_vec()),
        tap_key_sig: i.tap_key_sig.map(|s| s.to_vec()),
        final_script_witness: i.final_script_witness.as_ref().map(|w| w.to_vec()),
    }).collect())
}

/// That bytes are what was written for a PSBT, start with the magic of the format, and
/// are read as that PSBT where its parts keep the limits of the decoder.
pub open spec fn is_encoding(psbt: PsbtView, bytes: Seq<u8>) -> bool {
    &&& bytes == psbt_encoded(psbt)
    &&& psbt_magic().is_prefix_of(bytes)
    &&& psbt.fits() ==> holds(bytes, psbt.unsigned_tx, psbt.inputs)
}

/// `Psbt::serialize` of the PSBT read from `origin`, with the wallet's fields of its
/// inputs replaced. The result starts with the magic of the format, and the decoder
/// finds in it what was written where the parts keep its limits.
#[verifier::external_body]
fn encode_read_psbt(psbt: &Psbt, origin: &[u8]) -> (bytes: Vec<u8>)
    requires
        psbt@.wf(),
        psbt@.origin == Some(origin@),
    ensures
        bytes@ == psbt_encoded(psbt@),
        is_encoding(psbt@, bytes@),
{
    let mut p = bitcoin::Psbt::deserialize(origin).unwrap();
    for (i, f) in p.inputs.iter_mut().zip(&psbt.inputs) {
        i.witness_utxo = f.witness_utxo.as_ref().map(|o| bitcoin::TxOut { value: Amount::from_sat(o.value), script_pubkey: ScriptBuf::from(o.script_pubkey.clone()) });
        i.tap_internal_key = f.tap_internal_key.as_ref().map(|k| XOnlyPublicKey::from_slice(k).unwrap());
        i.tap_key_sig = f.tap_key_sig.as_ref().map(|s| bitcoin::taproot::Signature::from_slice(s).unwrap());
        i.final_script_witness = f.final_script_witness.as_deref().map(Witness::from_slice);
    }
    p.serialize()
}

/// `Psbt::serialize` of the PSBT that `Psbt::from_unsigned_tx` makes of an encoded
/// transaction without scripts and witnesses, with the wallet's fields of its inputs set.
/// The result starts with the magic of the format, and the decoder finds in it what was
/// written where the parts keep its limits.
#[verifier::external_body]
fn encode_new_psbt(psbt: &Psbt, tx: &[u8]) -> (bytes: Vec<u8>)
    requires
        psbt@.wf(),
        psbt@.origin is None,
        tx@ == unsigned_tx_encoded(psbt@.unsigned_tx),
    ensures
        bytes@ == psbt_encoded(psbt@),
        is_encoding(psbt@, bytes@),
{
    let mut p = bitcoin::Psbt::from_unsigned_tx(deserialize(tx).unwrap()).unwrap();
    for (i, f) in p.inputs.iter_mut().zip(&psbt.inputs) {
        i.witness_utxo = f.witness_utxo.as_ref().map(|o| bitcoin::TxOut { value: Amount::from_sat(o.value), script_pubkey: ScriptBuf::from(o.script_pubkey.clone()) });
        i.tap_internal_key = f.tap_internal_key.as_ref().map(|k| XOnlyPublicKey::from_slice(k).unwrap());
        i.tap_key_sig = f.tap_key_sig.as_ref().map(|s| bitcoin::taproot::Signature::from_slice(s).unwrap());
        i.final_script_witness = f.final_script_witness.as_deref().map(Witness::from_slice);
    }
    p.serialize()
}

/// What is known of an extraction: the unsigned transaction with the final witnesses of
/// the inputs, as the decoder of transactions finds it where its limits are kept.
/// Refused are inputs whose amount is not known, a total beyond sixty-four bits, and
/// outputs that exceed the inputs. A fee above 25000 satoshis per virtual byte, that is
/// above 6250 for each unit of weight, is refused too; every input weighs at least 164
/// units and the rest of a transaction at least 40, so a fee up to 6250 for each of these
/// is accepted.
pub open spec fn is_extraction(psbt: PsbtView, r: Result<Seq<u8>, Seq<char>>) -> bool {
    &&& r == extracted_tx(psbt)
    &&& r matches Ok(bytes) ==> (psbt.has_small_witnesses() ==> encodes(
        bytes,
        psbt.unsigned_tx,
        final_witnesses(psbt.inputs),
    ))
    &&& psbt.total_funding() !is Total ==> r is Err
    &&& psbt.total_funding() matches Funding::Total(total) ==> {
        &&& total < total_value(psbt.unsigned_tx.outputs) ==> r is Err
        &&& total_value(psbt.unsigned_tx.outputs) <= total <= total_value(psbt.unsigned_tx.outputs)
            + 6250 * (164 * psbt.inputs.len() + 40) ==> r is Ok
    }
}

/// `Psbt::extract_tx` of the PSBT read from `origin`, with the wallet's fields of its
/// inputs replaced; `is_extraction` says what is claimed of it. It panics on an input
/// that names an output which its transaction lacks.
#[verifier::external_body]
fn extract_read(psbt: &Psbt, origin: &[u8]) -> (r: Result<Vec<u8>, String>)
    requires
        psbt@.wf(),
        psbt@.origin == Some(origin@),
        psbt@.total_funding() !is OutOfBounds,
    ensures
        result_view(r) == extracted_tx(psbt@),
        is_extraction(psbt@, result_view(r)),
{
    let mut p = bitcoin::Psbt::deserialize(origin).unwrap();
    for (i, f) in p.inputs.iter_mut().zip(&psbt.inputs) {
        i.witness_utxo = f.witness_utxo.as_ref().map(|o| bitcoin::TxOut { value: Amount::from_sat(o.value), script_pubkey: ScriptBuf::from(o.script_pubkey.clone()) });
        i.final_script_witness = f.final_script_witness.as_deref().map(Witness::from_slice);
    }
    p.extract_tx().map(|t| serialize(&t)).map_err(|e| e.to_string())
}

/// `Psbt::extract_tx` of the PSBT that `Psbt::from_unsigned_tx` makes of an encoded
/// transaction without scripts and witnesses, with the wallet's fields of its inputs set;
/// `is_extraction` says what is claimed of it.
#[verifier::external_body]
fn extract_new(psbt: &Psbt, tx: &[u8]) -> (r: Result<Vec<u8>, String>)
    requires
        psbt@.wf(),
        psbt@.origin is None,
        tx@ == unsigned_tx_encoded(psbt@.unsigned_tx),
    ensures
        result_view(r) == extracted_tx(psbt@),
        is_extraction(psbt@, result_view(r)),
{
    let mut p = bitcoin::Psbt::from_unsigned_tx(deserialize(tx).unwrap()).unwrap();
    for (i, f) in p.inputs.iter_mut().zip(&psbt.inputs) {
        i.witness_utxo = f.witness_utxo.as_ref().map(|o| bitcoin::TxOut { value: Amount::from_sat(o.value), script_pubkey: ScriptBuf::from(o.script_pubkey.clone()) });
        i.final_script_witness = f.final_script_witness.as_deref().map(Witness::from_slice);
    }
    p.extract_tx().map(|t| serialize(&t)).map_err(|e| e.to_string())
}

pub(crate) fn extract(psbt: &Psbt) -> (r: Result<Vec<u8>, String>)
    requires
        psbt@.wf(),
        psbt@.total_funding() !is OutOfBounds,
    ensures
        is_extraction(psbt@, result_view(r)),
{
    match &psbt.origin {
        Some(origin) => extract_read(psbt, origin.as_slice()),
        None => {
            let tx = psbt.unsigned_tx.encode();
            extract_new(psbt, tx.as_slice())
        },
    }
}

/// What `parse_psbt_from_bytes` and `parse_psbt` make of the result of decoding.
pub open spec fn parsed_psbt(
    prefix: Seq<char>,
    bytes: Seq<u8>,
    decoded: Result<PsbtContent, Seq<char>>,
) -> Result<PsbtView, Seq<char>> {
    match decoded {
        Ok(content) => Ok(
            PsbtView {
                unsigned_tx: content.unsigned_tx,
                inputs: content.inputs,
                origin: Some(bytes),
            },
        ),
        Err(e) => Err(prefix + e),
    }
}

/// The views of the two sides of a result.
pub open spec fn result_view<T: View, E: View>(r: Result<T, E>) -> Result<T::V, E::V> {
    match r {
        Ok(t) => Ok(t@),
        Err(e) => Err(e@),
    }
}

fn decode_psbt(bytes: &[u8], prefix: &str) -> (r: Result<Psbt, String>)
    ensures
        result_view(r) == parsed_psbt(prefix@, bytes@, psbt_decoded(bytes@)),
        r matches Ok(psbt) ==> psbt@.wf() && psbt@.fits() && psbt_magic().is_prefix_of(bytes@),
{
    match decode_unsigned_tx(bytes) {
        Err(e) => Err(concat(prefix, e.as_str())),
        Ok(unsigned_tx) => match decode_inputs(bytes) {
            Err(e) => Err(concat(prefix, e.as_str())),
            Ok(inputs) => Ok(Psbt { unsigned_tx, inputs, origin: Some(slice_to_vec(bytes)) }),
        },
    }
}

/// Reads a PSBT in binary.
pub fn parse_psbt_from_bytes(bytes: &[u8]) -> (r: Result<Psbt, String>)
    ensures
        result_view(r) == parsed_psbt(
            "Failed to parse binary PSBT: "@,
            bytes@,
            psbt_decoded(bytes@),
        ),
        r matches Ok(psbt) ==> psbt@.wf() && psbt@.fits() && psbt_magic().is_prefix_of(bytes@),
{
    decode_psbt(bytes, "Failed to parse binary PSBT: ")
}

/// What `parse_psbt` makes of a text.
pub open spec fn parsed_psbt_text(text: Seq<char>) -> Result<PsbtView, Seq<char>> {
    match base64_bytes(text) {
        Some(bytes) => parsed_psbt("Failed to parse PSBT: "@, bytes, psbt_decoded(bytes)),
        None => Err("Failed to decode base64: "@ + base64_refusal(text)),
    }
}

/// Reads a PSBT in base64.
pub fn parse_psbt(psbt_base64: &str) -> (r: Result<Psbt, String>)
    ensures
        result_view(r) == parsed_psbt_text(psbt_base64@),
        r matches Ok(psbt) ==> psbt@.wf() && psbt@.fits(),
{
    match base64_decode(psbt_base64) {
        Err(e) => Err(concat("Failed to decode base64: ", e.as_str())),
        Ok(bytes) => {
            proof {
                lemma_base64_round_trip(bytes@);
            }
            decode_psbt(bytes.as_slice(), "Failed to parse PSBT: ")
        },
    }
}

impl Psbt {
    /// Writes a PSBT in binary. What was written reads as the same PSBT where its parts
    /// keep the limits of the decoder.
    pub fn serialize(&self) -> (bytes: Vec<u8>)
        requires
            self@.wf(),
        ensures
            bytes@ == psbt_encoded(self@),
            psbt_magic().is_prefix_of(bytes@),
            self@.fits() ==> rewritten(self@).wf() && parsed_psbt(
                "Failed to parse binary PSBT: "@,
                bytes@,
                psbt_decoded(bytes@),
            ) == Ok::<PsbtView, Seq<char>>(rewritten(self@)),
            self@.fits() ==> holds(bytes@, self@.unsigned_tx, self@.inputs),
    {
        match &self.origin {
            Some(origin) => encode_read_psbt(self, origin.as_slice()),
            None => {
                let tx = self.unsigned_tx.encode();
                encode_new_psbt(self, tx.as_slice())
            },
        }
    }
}

/// Writes a PSBT in base64. What was written reads as the same PSBT where its parts keep
/// the limits of the decoder.
pub fn serialize_psbt(psbt: &Psbt) -> (r: Result<String, String>)
    requires
        psbt@.wf(),
    ensures
        r matches Ok(text) && text@ == base64_text(psbt_encoded(psbt@)),
        psbt_magic().is_prefix_of(psbt_encoded(psbt@)),
        psbt@.fits() ==> rewritten(psbt@).wf() && (r matches Ok(text) && parsed_psbt_text(text@)
            == Ok::<PsbtView, Seq<char>>(rewritten(psbt@))),
{
    let bytes = psbt.serialize();
    proof {
        lemma_base64_round_trip(bytes@);
    }
    Ok(base64_encode(bytes.as_slice()))
}

/// A PSBT whose other fields are taken from what it was written out as.
pub open spec fn rewritten(psbt: PsbtView) -> PsbtView {
    PsbtView { origin: Some(psbt_encoded(psbt)), ..psbt }
}

} // verus!
