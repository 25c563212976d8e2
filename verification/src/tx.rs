//! Transactions: identifiers, outputs, addresses and unsigned transactions.

use crate::encoding::hex_bytes;
use bitcoin::absolute::LockTime;
use bitcoin::consensus::{deserialize, serialize};
use bitcoin::transaction::Version;
use bitcoin::{Amount, OutPoint, Sequence};
use vstd::prelude::*;

verus! {

/// The views of the elements of a sequence.
pub open spec fn views<T: View>(s: Seq<T>) -> Seq<T::V> {
    s.map_values(|t: T| t@)
}

/// Replacing an element replaces its view.
pub proof fn lemma_views_update<T: View>(s: Seq<T>, i: int, t: T)
    requires
        0 <= i < s.len(),
    ensures
        views(s.update(i, t)) == views(s).update(i, t@),
{
    assert(views(s.update(i, t)) =~= views(s).update(i, t@));
}

/// The identifier of a transaction, in the order in which it is hashed.
#[derive(Clone, Copy, Debug, PartialEq, Eq)]
pub struct Txid {
    pub bytes: [u8; 32],
}

impl View for Txid {
    type V = Seq<u8>;

    open spec fn view(&self) -> Seq<u8> {
        self.bytes@
    }
}

/// The bytes of the identifier that a text writes: sixty-four hexadecimal digits,
/// the last byte first.
pub open spec fn txid_bytes(s: Seq<char>) -> Option<Seq<u8>> {
    if s.len() == 64 {
        match hex_bytes(s) {
            Some(b) => Some(b.reverse()),
            None => None,
        }
    } else {
        None
    }
}

/// `Txid::from_str` of the `bitcoin` crate: it accepts sixty-four hexadecimal
/// digits of either case and takes the bytes in reverse order.
#[verifier::external_body]
fn txid_from_str(s: &str) -> (r: Option<Txid>)
    ensures
        match r {
            Some(txid) => txid_bytes(s@) == Some(txid@),
            None => txid_bytes(s@) is None,
        },
{
    s.parse::<bitcoin::Txid>().ok().map(|t| Txid { bytes: bitcoin_hashes::Hash::to_byte_array(t) })
}

impl Txid {
    /// Reads an identifier.
    pub fn parse(s: &str) -> (r: Option<Txid>)
        ensures
            match r {
                Some(txid) => txid_bytes(s@) == Some(txid@),
                None => txid_bytes(s@) is None,
            },
    {
        txid_from_str(s)
    }
}

/// What an output holds.
pub struct TxOutView {
    pub value: u64,
    pub script_pubkey: Seq<u8>,
}

/// An output of a transaction: an amount in satoshis and the script that guards it.
#[derive(Clone, Debug)]
pub struct TxOut {
    pub value: u64,
    pub script_pubkey: Vec<u8>,
}

impl View for TxOut {
    type V = TxOutView;

    open spec fn view(&self) -> TxOutView {
        TxOutView { value: self.value, script_pubkey: self.script_pubkey@ }
    }
}

/// What an input of an unsigned transaction holds.
pub struct TxInView {
    pub txid: Seq<u8>,
    pub vout: u32,
    pub sequence: u32,
}

/// An input of an unsigned transaction: the output that it spends, and its sequence
/// number.
#[derive(Clone, Copy, Debug)]
pub struct TxIn {
    pub txid: Txid,
    pub vout: u32,
    pub sequence: u32,
}

impl View for TxIn {
    type V = TxInView;

    open spec fn view(&self) -> TxInView {
        TxInView { txid: self.txid@, vout: self.vout, sequence: self.sequence }
    }
}

/// What an unsigned transaction holds.
pub struct UnsignedTxView {
    pub version: i32,
    pub lock_time: u32,
    pub inputs: Seq<TxInView>,
    pub outputs: Seq<TxOutView>,
}

/// A transaction without scripts and witnesses on its inputs.
#[derive(Clone, Debug)]
pub struct UnsignedTx {
    pub version: i32,
    pub lock_time: u32,
    pub inputs: Vec<TxIn>,
    pub outputs: Vec<TxOut>,
}

impl View for UnsignedTx {
    type V = UnsignedTxView;

    open spec fn view(&self) -> UnsignedTxView {
        UnsignedTxView {
            version: self.version,
            lock_time: self.lock_time,
            inputs: views(self.inputs@),
            outputs: views(self.outputs@),
        }
    }
}

impl TxOut {
    /// A copy.
    pub fn duplicate(&self) -> (copy: TxOut)
        ensures
            copy@ == self@,
    {
        let script_pubkey = self.script_pubkey.clone();
        assert(script_pubkey@ =~= self.script_pubkey@);
        TxOut { value: self.value, script_pubkey }
    }
}

impl UnsignedTx {
    /// A copy.
    pub fn duplicate(&self) -> (copy: UnsignedTx)
        ensures
            copy@ == self@,
    {
        let mut inputs: Vec<TxIn> = Vec::new();
        let mut i: usize = 0;
        while i < self.inputs.len()
            invariant
                i <= self.inputs@.len(),
                inputs@ == self.inputs@.take(i as int),
            decreases self.inputs.len() - i,
        {
            inputs.push(self.inputs[i]);
            assert(self.inputs@.take(i + 1) =~= self.inputs@.take(i as int).push(
                self.inputs@[i as int],
            ));
            i = i + 1;
        }
        assert(self.inputs@.take(i as int) =~= self.inputs@);
        let mut outputs: Vec<TxOut> = Vec::new();
        let mut k: usize = 0;
        while k < self.outputs.len()
            invariant
                k <= self.outputs@.len(),
                outputs@.len() == k,
                forall|j: int| 0 <= j < k ==> (#[trigger] outputs@[j])@ == self.outputs@[j]@,
            decreases self.outputs.len() - k,
        {
            outputs.push(self.outputs[k].duplicate());
            k = k + 1;
        }
        assert(views(outputs@) =~= views(self.outputs@));
        UnsignedTx { version: self.version, lock_time: self.lock_time, inputs, outputs }
    }
}

/// The total of the amounts of outputs.
pub open spec fn total_value(outputs: Seq<TxOutView>) -> nat
    decreases outputs.len(),
{
    if outputs.len() == 0 {
        0
    } else {
        total_value(outputs.drop_last()) + outputs.last().value as nat
    }
}

/// What an address holds.
pub struct AddressView {
    pub text: Seq<char>,
    pub script_pubkey: Seq<u8>,
}

/// An address: its text and the script of an output that pays to it.
#[derive(Clone, Debug)]
pub struct Address {
    pub text: String,
    pub script_pubkey: Vec<u8>,
}

impl View for Address {
    type V = AddressView;

    open spec fn view(&self) -> AddressView {
        AddressView { text: self.text@, script_pubkey: self.script_pubkey@ }
    }
}

/// What the encoding of a complete transaction holds, as far as the wallet reads it: the
/// scripts of the inputs are left out.
pub struct TransactionContent {
    pub unsigned_tx: UnsignedTxView,
    pub witnesses: Seq<Seq<Seq<u8>>>,
}

/// What a complete transaction holds.
pub struct TransactionView {
    pub unsigned_tx: UnsignedTxView,
    pub witnesses: Seq<Seq<Seq<u8>>>,
    pub bytes: Seq<u8>,
}

/// A complete transaction: its inputs and outputs, the witnesses of the inputs, and its
/// consensus encoding.
#[derive(Clone, Debug)]
pub struct Transaction {
    pub unsigned_tx: UnsignedTx,
    pub witnesses: Vec<Vec<Vec<u8>>>,
    pub bytes: Vec<u8>,
}

/// The views of witnesses.
pub open spec fn witness_views(witnesses: Seq<Vec<Vec<u8>>>) -> Seq<Seq<Seq<u8>>> {
    witnesses.map_values(|w: Vec<Vec<u8>>| views(w@))
}

impl View for Transaction {
    type V = TransactionView;

    open spec fn view(&self) -> TransactionView {
        TransactionView {
            unsigned_tx: self.unsigned_tx@,
            witnesses: witness_views(self.witnesses@),
            bytes: self.bytes@,
        }
    }
}

/// What `consensus::deserialize` of the `bitcoin` crate finds in bytes, or the words
/// with which it refuses them.
pub uninterp spec fn transaction_decoded(bytes: Seq<u8>) -> Result<
    TransactionContent,
    Seq<char>,
>;

/// Whether bytes are a transaction with these inputs, outputs and witnesses.
pub open spec fn encodes(
    bytes: Seq<u8>,
    unsigned_tx: UnsignedTxView,
    witnesses: Seq<Seq<Seq<u8>>>,
) -> bool {
    transaction_decoded(bytes) == Ok::<TransactionContent, Seq<char>>(
        TransactionContent { unsigned_tx, witnesses },
    )
}

/// `consensus::deserialize` of a transaction, of which this gives all but scripts and
/// witnesses.
#[verifier::external_body]
fn decode_unsigned_part(bytes: &[u8]) -> (r: Result<UnsignedTx, String>)
    ensures
        match r {
            Ok(tx) => transaction_decoded(bytes@) matches Ok(content) && content.unsigned_tx == tx@,
            Err(e) => transaction_decoded(bytes@) matches Err(words) && words == e@,
        },
{
    let t = deserialize::<bitcoin::Transaction>(bytes).map_err(|e| e.to_string())?;
    Ok(UnsignedTx {
        version: t.version.0,
        lock_time: t.lock_time.to_consensus_u32(),
        inputs: t.input.iter().map(|i| TxIn {
            txid: Txid { bytes: bitcoin_hashes::Hash::to_byte_array(i.previous_output.txid) },
            vout: i.previous_output.vout,
            sequence: i.sequence.0,
        }).collect(),
        outputs: t.output.iter().map(|o| TxOut { value: o.value.to_sat(), script_pubkey: o.script_pubkey.to_bytes() }).collect(),
    })
}

/// `consensus::deserialize` of a transaction, of which this gives the witnesses, one for
/// each input.
#[verifier::external_body]
fn decode_witnesses(bytes: &[u8]) -> (r: Result<Vec<Vec<Vec<u8>>>, String>)
    ensures
        match r {
            Ok(witnesses) => {
                &&& transaction_decoded(bytes@) matches Ok(content)
                &&& content.witnesses == witness_views(witnesses@)
                &&& content.witnesses.len() == content.unsigned_tx.inputs.len()
            },
            Err(e) => transaction_decoded(bytes@) matches Err(words) && words == e@,
        },
{
    let t = deserialize::<bitcoin::Transaction>(bytes).map_err(|e| e.to_string())?;
    Ok(t.input.iter().map(|i| i.witness.to_vec()).collect())
}

/// What `consensus::serialize` of the `bitcoin` crate writes for a transaction without
/// scripts and witnesses on its inputs.
pub uninterp spec fn unsigned_tx_encoded(tx: UnsignedTxView) -> Seq<u8>;

/// The space that a transaction without scripts and witnesses takes, the marker and the
/// flag that stand for inputs where there are none left out.
pub open spec fn bare_size(tx: UnsignedTxView) -> int {
    unsigned_tx_encoded(tx).len() - if tx.inputs.len() == 0 {
        2int
    } else {
        0
    }
}

/// `consensus::serialize` of a transaction without scripts and witnesses on its inputs.
/// The decoder finds that transaction in the result.
#[verifier::external_body]
fn encode_unsigned_tx(tx: &UnsignedTx) -> (bytes: Vec<u8>)
    ensures
        bytes@ == unsigned_tx_encoded(tx@),
        encodes(bytes@, tx@, no_witnesses(tx@.inputs.len())),
{
    serialize(&bitcoin::Transaction {
        version: Version(tx.version),
        lock_time: LockTime::from_consensus(tx.lock_time),
        input: tx.inputs.iter().map(|i| bitcoin::TxIn {
            previous_output: OutPoint::new(bitcoin_hashes::Hash::from_byte_array(i.txid.bytes), i.vout),
            sequence: Sequence(i.sequence),
            ..Default::default()
        }).collect(),
        output: tx.outputs.iter().map(|o| bitcoin::TxOut { value: Amount::from_sat(o.value), script_pubkey: o.script_pubkey.clone().into() }).collect(),
    })
}

/// Empty witnesses.
pub open spec fn no_witnesses(n: nat) -> Seq<Seq<Seq<u8>>> {
    Seq::new(n, |i: int| Seq::empty())
}

impl UnsignedTx {
    /// Writes the transaction in its consensus encoding.
    pub fn encode(&self) -> (bytes: Vec<u8>)
        ensures
            bytes@ == unsigned_tx_encoded(self@),
            encodes(bytes@, self@, no_witnesses(self@.inputs.len())),
    {
        encode_unsigned_tx(self)
    }
}

/// What a transaction reads as.
pub open spec fn parsed_transaction(bytes: Seq<u8>) -> Result<TransactionView, Seq<char>> {
    match transaction_decoded(bytes) {
        Ok(content) => Ok(
            TransactionView {
                unsigned_tx: content.unsigned_tx,
                witnesses: content.witnesses,
                bytes,
            },
        ),
        Err(e) => Err(e),
    }
}

impl Transaction {
    /// Reads a transaction from its consensus encoding.
    pub fn decode(bytes: Vec<u8>) -> (r: Result<Transaction, String>)
        ensures
            match r {
                Ok(tx) => parsed_transaction(bytes@) matches Ok(view) && view == tx@,
                Err(e) => parsed_transaction(bytes@) matches Err(words) && words == e@,
            },
    {
        match decode_unsigned_part(bytes.as_slice()) {
            Err(e) => Err(e),
            Ok(unsigned_tx) => match decode_witnesses(bytes.as_slice()) {
                Err(e) => Err(e),
                Ok(witnesses) => Ok(Transaction { unsigned_tx, witnesses, bytes }),
            },
        }
    }
}

} // verus!
