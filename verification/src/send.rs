//! Payments: the PSBT that pays an amount and returns the change, and the way from
//! unspent outputs to a transaction that can be broadcast.

use crate::api::Utxo;
use crate::encoding::{hex_encode, hex_text, lemma_hex_round_trip};
use crate::keys::{is_p2tr, schnorr_verifies};
use crate::network::Network;
use crate::psbt::{
    blank_input, extracted_tx, final_witnesses, funding, result_view, witness_size, Funding, Psbt,
    PsbtInput, PsbtInputView, PsbtView, MAX_PART_SIZE,
};
use crate::text::concat;
use crate::tx::{
    encodes, total_value, transaction_decoded, txid_bytes, views, Address, AddressView, TxIn,
    TxInView, TxOut, TxOutView, Txid, UnsignedTx, UnsignedTxView,
};
use crate::wallet::{
    finalized, is_taproot_input, lemma_signed_and_finalized, prevouts, signs, taproot_count,
    taproot_sighash, Wallet, WalletView,
};
use bitcoin::FeeRate;
use vstd::prelude::*;

verus! {

/// The amount up to which change is left to the fee.
pub const DUST_LIMIT: u64 = 546;

/// What an output to be spent holds.
pub struct SpendInputView {
    pub txid: Seq<u8>,
    pub vout: u32,
    pub value: u64,
    pub script_pubkey: Seq<u8>,
}

/// The view of an output to be spent: identifier, index, amount and script.
pub open spec fn spend_input_view(t: (Txid, u32, u64, Vec<u8>)) -> SpendInputView {
    SpendInputView { txid: t.0@, vout: t.1, value: t.2, script_pubkey: t.3@ }
}

/// The views of outputs to be spent.
pub open spec fn spend_input_views(s: Seq<(Txid, u32, u64, Vec<u8>)>) -> Seq<SpendInputView> {
    s.map_values(|t: (Txid, u32, u64, Vec<u8>)| spend_input_view(t))
}

/// The total of the amounts of outputs to be spent.
pub open spec fn inputs_total(inputs: Seq<SpendInputView>) -> nat
    decreases inputs.len(),
{
    if inputs.len() == 0 {
        0
    } else {
        inputs_total(inputs.drop_last()) + inputs.last().value as nat
    }
}

/// The fee at one satoshi per virtual byte, for 150 of them per input and 200 for the
/// rest.
pub open spec fn estimated_fee(n: nat) -> nat {
    150 * n + 200
}

/// Whether the fee can be computed in sixty-four bits: in thousandths, rounded up.
pub open spec fn fee_is_computable(n: nat) -> bool {
    1000 * estimated_fee(n) + 999 <= u64::MAX
}

/// What is left of the total after the amount and the fee.
pub open spec fn change_value(inputs: Seq<SpendInputView>, amount: u64) -> u64 {
    (inputs_total(inputs) - amount - estimated_fee(inputs.len())) as u64
}

/// The outputs of a payment: the payment, and the change unless it is dust.
pub open spec fn send_outputs(
    inputs: Seq<SpendInputView>,
    destination: AddressView,
    amount: u64,
    change_address: AddressView,
) -> Seq<TxOutView> {
    let payment = TxOutView { value: amount, script_pubkey: destination.script_pubkey };
    let change = TxOutView {
        value: change_value(inputs, amount),
        script_pubkey: change_address.script_pubkey,
    };
    if change.value > DUST_LIMIT {
        seq![payment, change]
    } else {
        seq![payment]
    }
}

/// The transaction that spends outputs and pays to others.
pub open spec fn payment_tx(
    inputs: Seq<SpendInputView>,
    outputs: Seq<TxOutView>,
) -> UnsignedTxView {
    UnsignedTxView {
        version: 2,
        lock_time: 0,
        inputs: Seq::new(
            inputs.len(),
            |i: int|
                TxInView { txid: inputs[i].txid, vout: inputs[i].vout, sequence: u32::MAX },
        ),
        outputs,
    }
}

/// The PSBT of such a transaction: its inputs hold the outputs that they spend.
pub open spec fn payment_psbt(
    inputs: Seq<SpendInputView>,
    outputs: Seq<TxOutView>,
) -> PsbtView {
    PsbtView {
        unsigned_tx: payment_tx(inputs, outputs),
        inputs: Seq::new(
            inputs.len(),
            |i: int|
                PsbtInputView {
                    witness_utxo: Some(
                        TxOutView {
                            value: inputs[i].value,
                            script_pubkey: inputs[i].script_pubkey,
                        },
                    ),
                    ..blank_input()
                },
        ),
        origin: None,
    }
}

/// The PSBT of a payment.
pub open spec fn send_psbt(
    inputs: Seq<SpendInputView>,
    destination: AddressView,
    amount: u64,
    change_address: AddressView,
) -> PsbtView {
    payment_psbt(inputs, send_outputs(inputs, destination, amount, change_address))
}

/// What the making of a payment gives.
pub open spec fn created_psbt(
    inputs: Seq<SpendInputView>,
    destination: AddressView,
    amount: u64,
    change_address: AddressView,
) -> Result<PsbtView, Seq<char>> {
    if !fee_is_computable(inputs.len()) {
        Err("Failed to calculate fee"@)
    } else if amount + estimated_fee(inputs.len()) > inputs_total(inputs) {
        Err("Insufficient funds"@)
    } else {
        Ok(send_psbt(inputs, destination, amount, change_address))
    }
}

/// The fee for a size at a rate: the product, where it in thousandths, rounded up, and
/// the weight fit in sixty-four bits.
pub open spec fn fee_at(sat_per_vb: u64, vsize: u64) -> Option<u64> {
    if 4 * vsize <= u64::MAX && 1000 * (sat_per_vb * vsize) + 999 <= u64::MAX {
        Some((sat_per_vb * vsize) as u64)
    } else {
        None
    }
}

/// `FeeRate::fee_vb` at a rate in satoshis per virtual byte: the product, which the
/// crate computes in thousandths and rounds up, where that and the weight fit in
/// sixty-four bits.
#[verifier::external_body]
fn fee_vb(sat_per_vb: u64, vsize: u64) -> (fee: Option<u64>)
    requires
        250 * sat_per_vb <= u64::MAX,
    ensures
        fee == fee_at(sat_per_vb, vsize),
{
    FeeRate::from_sat_per_vb_unchecked(sat_per_vb).fee_vb(vsize).map(|f| f.to_sat())
}

/// A part of the outputs to be spent is worth at most as much as all.
proof fn lemma_inputs_total_take(inputs: Seq<SpendInputView>, n: int)
    requires
        0 <= n <= inputs.len(),
    ensures
        inputs_total(inputs.take(n)) <= inputs_total(inputs),
    decreases inputs.len(),
{
    if n < inputs.len() {
        lemma_inputs_total_take(inputs.drop_last(), n);
        assert(inputs.drop_last().take(n) =~= inputs.take(n));
    } else {
        assert(inputs.take(n) =~= inputs);
    }
}

/// What a payment does with the money: the first output pays the amount to the
/// destination, a second one, if there is any, returns more than dust, and the fee is
/// the estimate and at most dust more.
pub proof fn lemma_payment_conserves(
    inputs: Seq<SpendInputView>,
    destination: AddressView,
    amount: u64,
    change_address: AddressView,
)
    requires
        created_psbt(inputs, destination, amount, change_address) is Ok,
        inputs_total(inputs) <= u64::MAX,
    ensures
        ({
            let outputs = send_outputs(inputs, destination, amount, change_address);
            let fee = inputs_total(inputs) - total_value(outputs);
            &&& estimated_fee(inputs.len()) <= fee <= estimated_fee(inputs.len()) + DUST_LIMIT
            &&& 1 <= outputs.len() <= 2
            &&& outputs[0] == (TxOutView {
                value: amount,
                script_pubkey: destination.script_pubkey,
            })
            &&& outputs.len() == 2 ==> fee == estimated_fee(inputs.len()) && outputs[1].value
                > DUST_LIMIT && outputs[1].script_pubkey == change_address.script_pubkey
        }),
        inputs.len() > 0,
{
    reveal_with_fuel(total_value, 3);
    let outputs = send_outputs(inputs, destination, amount, change_address);
    if outputs.len() == 2 {
        assert(outputs.drop_last() =~= seq![outputs[0]]);
        assert(outputs.drop_last().drop_last() =~= Seq::<TxOutView>::empty());
    } else {
        assert(outputs.drop_last() =~= Seq::<TxOutView>::empty());
    }
}

/// The total of outputs to be spent.
fn spend_total(utxos: &[(Txid, u32, u64, Vec<u8>)]) -> (total: u64)
    requires
        inputs_total(spend_input_views(utxos@)) <= u64::MAX,
    ensures
        total == inputs_total(spend_input_views(utxos@)),
{
    let ghost all = spend_input_views(utxos@);
    let mut total: u64 = 0;
    let mut i: usize = 0;
    while i < utxos.len()
        invariant
            i <= utxos@.len(),
            all == spend_input_views(utxos@),
            total == inputs_total(all.take(i as int)),
            inputs_total(all) <= u64::MAX,
        decreases utxos.len() - i,
    {
        assert(all.take(i + 1).drop_last() =~= all.take(i as int));
        assert(all[i as int] == spend_input_view(utxos@[i as int]));
        proof {
            lemma_inputs_total_take(all, i + 1);
        }
        total = total + utxos[i].2;
        i = i + 1;
    }
    assert(all.take(i as int) =~= all);
    total
}

/// The PSBT that spends outputs and pays to others.
fn create_payment(utxos: &[(Txid, u32, u64, Vec<u8>)], outputs: Vec<TxOut>) -> (psbt: Psbt)
    ensures
        psbt@ == payment_psbt(spend_input_views(utxos@), views(outputs@)),
        psbt@.wf(),
{
    let ghost all = spend_input_views(utxos@);
    let ghost paid = views(outputs@);
    let mut tx_inputs: Vec<TxIn> = Vec::new();
    let mut psbt_inputs: Vec<PsbtInput> = Vec::new();
    let mut i: usize = 0;
    while i < utxos.len()
        invariant
            i <= utxos@.len(),
            all == spend_input_views(utxos@),
            tx_inputs@.len() == i,
            psbt_inputs@.len() == i,
            forall|j: int|
                0 <= j < i ==> (#[trigger] tx_inputs@[j])@ == (TxInView {
                    txid: all[j].txid,
                    vout: all[j].vout,
                    sequence: u32::MAX,
                }),
            forall|j: int|
                0 <= j < i ==> (#[trigger] psbt_inputs@[j])@ == (PsbtInputView {
                    witness_utxo: Some(
                        TxOutView { value: all[j].value, script_pubkey: all[j].script_pubkey },
                    ),
                    ..blank_input()
                }),
        decreases utxos.len() - i,
    {
        assert(all[i as int] == spend_input_view(utxos@[i as int]));
        let utxo = &utxos[i];
        tx_inputs.push(TxIn { txid: utxo.0, vout: utxo.1, sequence: u32::MAX });
        let spent = TxOut { value: utxo.2, script_pubkey: utxo.3.clone() };
        assert(spent@.script_pubkey =~= all[i as int].script_pubkey);
        psbt_inputs.push(
            PsbtInput {
                witness_utxo: Some(spent),
                non_witness_values: None,
                tap_internal_key: None,
                tap_key_sig: None,
                final_script_witness: None,
            },
        );
        i = i + 1;
    }
    let unsigned_tx = UnsignedTx { version: 2, lock_time: 0, inputs: tx_inputs, outputs };
    assert(unsigned_tx@.inputs =~= payment_tx(all, paid).inputs);
    let psbt = Psbt { unsigned_tx, inputs: psbt_inputs, origin: None };
    assert(psbt@.inputs =~= payment_psbt(all, paid).inputs);
    psbt
}

fn output_to(address: &Address, value: u64) -> (output: TxOut)
    ensures
        output@ == (TxOutView { value, script_pubkey: address@.script_pubkey }),
{
    let script_pubkey = address.script_pubkey.clone();
    assert(script_pubkey@ =~= address@.script_pubkey);
    TxOut { value, script_pubkey }
}

/// Makes the PSBT of a payment.
pub fn create_send_psbt(
    utxos: &[(Txid, u32, u64, Vec<u8>)],
    destination: &Address,
    amount: u64,
    change_address: &Address,
    _network: Network,
) -> (r: Result<Psbt, String>)
    requires
        150 * utxos@.len() <= usize::MAX,
        inputs_total(spend_input_views(utxos@)) <= u64::MAX,
        amount + estimated_fee(utxos@.len()) <= u64::MAX,
    ensures
        result_view(r) == created_psbt(
            spend_input_views(utxos@),
            destination@,
            amount,
            change_address@,
        ),
        r matches Ok(psbt) ==> psbt@.wf(),
{
    let ghost all = spend_input_views(utxos@);
    let total_input: u64 = spend_total(utxos);
    let estimated_vsize: u64 = (utxos.len() * 150) as u64 + 200;
    let fee: u64 = match fee_vb(1, estimated_vsize) {
        Some(fee) => fee,
        None => {
            return Err("Failed to calculate fee".to_owned());
        },
    };
    if amount + fee > total_input {
        return Err("Insufficient funds".to_owned());
    }
    let mut outputs: Vec<TxOut> = Vec::new();
    outputs.push(output_to(destination, amount));
    let change: u64 = total_input - amount - fee;
    if change > DUST_LIMIT {
        outputs.push(output_to(change_address, change));
    }
    assert(views(outputs@) =~= send_outputs(all, destination@, amount, change_address@));
    Ok(create_payment(utxos, outputs))
}

/// The fee that is kept back when everything is sent.
pub const SEND_ALL_FEE: u64 = 1000;

/// The amount of a payment that sends everything.
pub open spec fn send_all_value(total: nat) -> nat {
    if total > SEND_ALL_FEE {
        (total - SEND_ALL_FEE) as nat
    } else {
        0
    }
}

/// The amount of a payment that sends everything.
pub fn send_all_amount(total: u64) -> (amount: u64)
    ensures
        amount == send_all_value(total as nat),
{
    total.saturating_sub(SEND_ALL_FEE)
}

/// The one output of a payment that sends everything: all but the fee goes to the
/// destination.
pub open spec fn send_all_outputs(
    inputs: Seq<SpendInputView>,
    destination: AddressView,
) -> Seq<TxOutView> {
    seq![
        TxOutView {
            value: send_all_value(inputs_total(inputs)) as u64,
            script_pubkey: destination.script_pubkey,
        },
    ]
}

/// The PSBT of a payment that sends everything.
pub open spec fn send_all_psbt(
    inputs: Seq<SpendInputView>,
    destination: AddressView,
) -> PsbtView {
    payment_psbt(inputs, send_all_outputs(inputs, destination))
}

/// What the making of a payment that sends everything gives: it is refused where nothing
/// is left after the fee.
pub open spec fn created_send_all(
    inputs: Seq<SpendInputView>,
    destination: AddressView,
) -> Result<PsbtView, Seq<char>> {
    if inputs_total(inputs) > SEND_ALL_FEE {
        Ok(send_all_psbt(inputs, destination))
    } else {
        Err("Not enough balance for fee"@)
    }
}

/// Makes the PSBT of a payment that sends everything: without change, and with a fee that
/// does not depend on the number of inputs.
pub fn create_send_all_psbt(
    utxos: &[(Txid, u32, u64, Vec<u8>)],
    destination: &Address,
) -> (r: Result<Psbt, String>)
    requires
        inputs_total(spend_input_views(utxos@)) <= u64::MAX,
    ensures
        result_view(r) == created_send_all(spend_input_views(utxos@), destination@),
        inputs_total(spend_input_views(utxos@)) > SEND_ALL_FEE ==> (r matches Ok(psbt) && psbt@.wf()
            && psbt@.unsigned_tx.outputs == seq![
            TxOutView {
                value: (inputs_total(spend_input_views(utxos@)) - SEND_ALL_FEE) as u64,
                script_pubkey: destination@.script_pubkey,
            },
        ]),
        inputs_total(spend_input_views(utxos@)) <= SEND_ALL_FEE ==> (r matches Err(e) && e@
            == "Not enough balance for fee"@),
{
    let ghost all = spend_input_views(utxos@);
    let amount: u64 = send_all_amount(spend_total(utxos));
    if amount == 0 {
        return Err("Not enough balance for fee".to_owned());
    }
    let mut outputs: Vec<TxOut> = Vec::new();
    outputs.push(output_to(destination, amount));
    assert(views(outputs@) =~= send_all_outputs(all, destination@));
    Ok(create_payment(utxos, outputs))
}

/// Sending everything pays all but the fee to the destination and nothing back, however
/// many outputs are spent; it is possible whenever they are worth more than the fee.
pub proof fn lemma_send_all(inputs: Seq<SpendInputView>, destination: AddressView)
    requires
        SEND_ALL_FEE < inputs_total(inputs) <= u64::MAX,
    ensures
        created_send_all(inputs, destination) matches Ok(psbt) && psbt.unsigned_tx.outputs == seq![
            TxOutView {
                value: (inputs_total(inputs) - SEND_ALL_FEE) as u64,
                script_pubkey: destination.script_pubkey,
            },
        ],
        total_value(send_all_outputs(inputs, destination)) + SEND_ALL_FEE == inputs_total(inputs),
        inputs.len() > 0,
{
    reveal_with_fuel(total_value, 2);
    let outputs = send_all_outputs(inputs, destination);
    assert(outputs.drop_last() =~= Seq::<TxOutView>::empty());
}

/// The outputs to be spent that belong to a wallet with the given script.
pub open spec fn wallet_inputs(utxos: Seq<Utxo>, script_pubkey: Seq<u8>) -> Seq<SpendInputView> {
    Seq::new(
        utxos.len(),
        |i: int|
            SpendInputView {
                txid: txid_bytes(utxos[i].txid@).unwrap(),
                vout: utxos[i].vout,
                value: utxos[i].value,
                script_pubkey,
            },
    )
}

/// Whether the identifiers of unspent outputs can be read.
pub open spec fn has_txids(utxos: Seq<Utxo>) -> bool {
    forall|i: int| 0 <= i < utxos.len() ==> txid_bytes((#[trigger] utxos[i]).txid@) is Some
}

/// The total of the amounts of unspent outputs.
pub open spec fn utxos_total(utxos: Seq<Utxo>) -> nat
    decreases utxos.len(),
{
    if utxos.len() == 0 {
        0
    } else {
        utxos_total(utxos.drop_last()) + utxos.last().value as nat
    }
}

/// A part of unspent outputs is worth at most as much as all.
proof fn lemma_utxos_total_take(utxos: Seq<Utxo>, n: int)
    requires
        0 <= n <= utxos.len(),
    ensures
        utxos_total(utxos.take(n)) <= utxos_total(utxos),
    decreases utxos.len(),
{
    if n < utxos.len() {
        lemma_utxos_total_take(utxos.drop_last(), n);
        assert(utxos.drop_last().take(n) =~= utxos.take(n));
    } else {
        assert(utxos.take(n) =~= utxos);
    }
}

/// The total of unspent outputs, where it fits in sixty-four bits.
pub fn balance(utxos: &Vec<Utxo>) -> (total: Option<u64>)
    ensures
        match total {
            Some(total) => total == utxos_total(utxos@),
            None => utxos_total(utxos@) > u64::MAX,
        },
{
    let mut total: u64 = 0;
    let mut i: usize = 0;
    assert(utxos@.take(0) =~= Seq::<Utxo>::empty());
    while i < utxos.len()
        invariant
            i <= utxos@.len(),
            total == utxos_total(utxos@.take(i as int)),
        decreases utxos.len() - i,
    {
        assert(utxos@.take(i + 1).drop_last() =~= utxos@.take(i as int));
        proof {
            lemma_utxos_total_take(utxos@, i + 1);
        }
        match total.checked_add(utxos[i].value) {
            Some(sum) => {
                total = sum;
            },
            None => {
                return None;
            },
        }
        i = i + 1;
    }
    assert(utxos@.take(i as int) =~= utxos@);
    Some(total)
}

/// The outputs of a wallet are worth the same as inputs.
pub proof fn lemma_wallet_inputs_total(utxos: Seq<Utxo>, script_pubkey: Seq<u8>)
    ensures
        inputs_total(wallet_inputs(utxos, script_pubkey)) == utxos_total(utxos),
    decreases utxos.len(),
{
    if utxos.len() > 0 {
        lemma_wallet_inputs_total(utxos.drop_last(), script_pubkey);
        assert(wallet_inputs(utxos, script_pubkey).drop_last() =~= wallet_inputs(
            utxos.drop_last(),
            script_pubkey,
        ));
    }
}

/// A transaction that is ready to be broadcast.
#[derive(Clone, Debug)]
pub struct Spend {
    /// The number of inputs that were signed.
    pub signed: usize,
    /// The transaction in hexadecimal.
    pub tx_hex: String,
}

/// What the making of a transaction gives, given what the making of its PSBT gives. The
/// PSBT is signed, made final and turned into a transaction; only its making can fail.
pub open spec fn completes(
    wallet: WalletView,
    created: Result<PsbtView, Seq<char>>,
    r: Result<Spend, String>,
) -> bool {
    match created {
        Err(e) => r matches Err(words) && words@ == "Failed to create PSBT: "@ + e,
        Ok(psbt) => r matches Ok(spend) && is_spend_of(wallet, psbt, spend),
    }
}

/// What paying an amount from a wallet's outputs gives; the change goes to the wallet.
pub open spec fn spends(
    wallet: WalletView,
    inputs: Seq<SpendInputView>,
    destination: AddressView,
    amount: u64,
    r: Result<Spend, String>,
) -> bool {
    completes(wallet, created_psbt(inputs, destination, amount, wallet.address), r)
}

/// What sending everything from a wallet's outputs gives.
pub open spec fn spends_all(
    wallet: WalletView,
    inputs: Seq<SpendInputView>,
    destination: AddressView,
    r: Result<Spend, String>,
) -> bool {
    completes(wallet, created_send_all(inputs, destination), r)
}

/// Whether a transaction is what signing a PSBT and making it final gives: the
/// transaction of the PSBT with the signatures as witnesses.
pub open spec fn is_spend_of(wallet: WalletView, psbt: PsbtView, spend: Spend) -> bool {
    &&& spend.signed == taproot_count(psbt.inputs)
    &&& exists|signed: PsbtView, tx: Seq<u8>| #[trigger]
        signs(wallet, psbt, signed, Ok(spend.signed)) && extracted_tx(finalized(signed)) == Ok::<
            Seq<u8>,
            Seq<char>,
        >(tx) && spend.tx_hex@ == #[trigger] hex_text(tx) && encodes(
            tx,
            psbt.unsigned_tx,
            final_witnesses(finalized(signed).inputs),
        )
}

/// All inputs of a PSBT of a payment name what they spend.
proof fn lemma_all_known(inputs: Seq<PsbtInputView>)
    requires
        forall|i: int| 0 <= i < inputs.len() ==> (#[trigger] inputs[i]).witness_utxo is Some,
    ensures
        prevouts(inputs).len() == inputs.len(),
    decreases inputs.len(),
{
    if inputs.len() > 0 {
        lemma_all_known(inputs.drop_last());
    }
}

/// What inputs that name what they spend bring in.
proof fn lemma_funding(psbt: PsbtView, inputs: Seq<SpendInputView>, n: nat)
    requires
        n <= inputs.len() == psbt.inputs.len(),
        inputs_total(inputs) <= u64::MAX,
        forall|i: int|
            0 <= i < inputs.len() ==> ((#[trigger] psbt.inputs[i]).witness_utxo matches Some(utxo)
                && utxo.value == inputs[i].value),
    ensures
        funding(psbt, n) == Funding::Total(inputs_total(inputs.take(n as int))),
    decreases n,
{
    if n > 0 {
        lemma_funding(psbt, inputs, (n - 1) as nat);
        lemma_inputs_total_take(inputs, n as int);
        assert(inputs.take(n as int).drop_last() =~= inputs.take(n - 1));
        assert(psbt.inputs[n - 1].witness_utxo is Some);
    }
}

/// The outputs of a wallet, as inputs of a payment.
fn collect_inputs(utxos: &Vec<Utxo>, script_pubkey: &Vec<u8>) -> (inputs: Vec<
    (Txid, u32, u64, Vec<u8>),
>)
    requires
        has_txids(utxos@),
    ensures
        spend_input_views(inputs@) == wallet_inputs(utxos@, script_pubkey@),
{
    let mut inputs: Vec<(Txid, u32, u64, Vec<u8>)> = Vec::new();
    let mut i: usize = 0;
    while i < utxos.len()
        invariant
            i <= utxos@.len(),
            has_txids(utxos@),
            inputs@.len() == i,
            forall|j: int|
                0 <= j < i ==> spend_input_view(#[trigger] inputs@[j]) == wallet_inputs(
                    utxos@,
                    script_pubkey@,
                )[j],
        decreases utxos.len() - i,
    {
        let utxo = &utxos[i];
        assert(txid_bytes(utxos@[i as int].txid@) is Some);
        if let Some(txid) = Txid::parse(utxo.txid.as_str()) {
            let script = script_pubkey.clone();
            assert(script@ =~= script_pubkey@);
            inputs.push((txid, utxo.vout, utxo.value, script));
        }
        i = i + 1;
    }
    assert(spend_input_views(inputs@) =~= wallet_inputs(utxos@, script_pubkey@));
    inputs
}

/// Signs the PSBT of a payment, makes it final and turns it into a transaction.
fn complete(wallet: &Wallet, created: Psbt, inputs: Ghost<Seq<SpendInputView>>) -> (r: Result<
    Spend,
    String,
>)
    requires
        created@ == payment_psbt(inputs@, created@.unsigned_tx.outputs),
        created@.wf(),
        inputs@.len() > 0,
        inputs_total(inputs@) <= u64::MAX,
        total_value(created@.unsigned_tx.outputs) <= inputs_total(inputs@) <= total_value(
            created@.unsigned_tx.outputs,
        ) + 6250 * (164 * inputs@.len() + 40),
    ensures
        r matches Ok(spend) && is_spend_of(wallet@, created@, spend),
{
    let mut psbt = created;
    let ghost made = psbt@;
    let ghost all = inputs@;
    proof {
        lemma_all_known(made.inputs);
    }
    match wallet.sign_psbt(&mut psbt) {
        Err(e) => Err(e),
        Ok(signed) => {
            let ghost after = psbt@;
            let _ = wallet.finalize_psbt(&mut psbt);
            proof {
                assert forall|i: int| 0 <= i < all.len() implies ((#[trigger]
                psbt@.inputs[i]).witness_utxo matches Some(utxo) && utxo.value == all[i].value) by {
                    assert(after.inputs[i].witness_utxo == made.inputs[i].witness_utxo);
                }
                lemma_funding(psbt@, all, all.len());
                assert(all.take(all.len() as int) =~= all);
                lemma_small_witnesses(wallet@, made, after, signed);
            }
            match wallet.extract_tx(&psbt) {
                Err(e) => Err(e),
                Ok(tx) => {
                    let tx_hex = hex_encode(tx.bytes.as_slice());
                    let spend = Spend { signed, tx_hex };
                    assert(signs(wallet@, made, after, Ok(spend.signed)));
                    assert(spend.tx_hex@ == hex_text(tx@.bytes));
                    assert(is_spend_of(wallet@, made, spend));
                    Ok(spend)
                },
            }
        },
    }
}

/// Makes a transaction that pays an amount from unspent outputs of a wallet and returns
/// the change to the wallet.
pub fn spend_utxos(
    wallet: &Wallet,
    utxos: &Vec<Utxo>,
    destination: &Address,
    amount: u64,
) -> (r: Result<Spend, String>)
    requires
        has_txids(utxos@),
        150 * utxos@.len() <= usize::MAX,
        utxos_total(utxos@) <= u64::MAX,
        amount + estimated_fee(utxos@.len()) <= u64::MAX,
    ensures
        spends(
            wallet@,
            wallet_inputs(utxos@, wallet@.address.script_pubkey),
            destination@,
            amount,
            r,
        ),
{
    let ghost all = wallet_inputs(utxos@, wallet@.address.script_pubkey);
    proof {
        lemma_wallet_inputs_total(utxos@, wallet@.address.script_pubkey);
    }
    let inputs = collect_inputs(utxos, &wallet.get_address().script_pubkey);
    match create_send_psbt(
        inputs.as_slice(),
        destination,
        amount,
        wallet.get_address(),
        wallet.network,
    ) {
        Err(e) => Err(concat("Failed to create PSBT: ", e.as_str())),
        Ok(psbt) => {
            proof {
                lemma_payment_conserves(all, destination@, amount, wallet@.address);
            }
            complete(wallet, psbt, Ghost(all))
        },
    }
}

/// Makes a transaction that sends everything in unspent outputs of a wallet.
pub fn spend_all_utxos(wallet: &Wallet, utxos: &Vec<Utxo>, destination: &Address) -> (r: Result<
    Spend,
    String,
>)
    requires
        has_txids(utxos@),
        utxos_total(utxos@) <= u64::MAX,
    ensures
        spends_all(
            wallet@,
            wallet_inputs(utxos@, wallet@.address.script_pubkey),
            destination@,
            r,
        ),
{
    let ghost all = wallet_inputs(utxos@, wallet@.address.script_pubkey);
    proof {
        lemma_wallet_inputs_total(utxos@, wallet@.address.script_pubkey);
    }
    let inputs = collect_inputs(utxos, &wallet.get_address().script_pubkey);
    match create_send_all_psbt(inputs.as_slice(), destination) {
        Err(e) => Err(concat("Failed to create PSBT: ", e.as_str())),
        Ok(psbt) => {
            proof {
                lemma_send_all(all, destination@);
            }
            complete(wallet, psbt, Ghost(all))
        },
    }
}

/// The witnesses of a PSBT without any, once it is signed and made final, hold at most
/// one signature.
proof fn lemma_small_witnesses(
    wallet: WalletView,
    before: PsbtView,
    after: PsbtView,
    count: usize,
)
    requires
        signs(wallet, before, after, Ok(count)),
        forall|i: int|
            0 <= i < before.inputs.len() ==> (#[trigger] before.inputs[i]).final_script_witness
                is None && before.inputs[i].tap_key_sig is None,
    ensures
        finalized(after).has_small_witnesses(),
{
    let witnesses = final_witnesses(finalized(after).inputs);
    assert forall|i: int| 0 <= i < after.inputs.len() implies witness_size(#[trigger] witnesses[i])
        <= MAX_PART_SIZE by {
        assert(before.inputs[i].final_script_witness is None);
        reveal_with_fuel(witness_size, 2);
        if is_taproot_input(before.inputs[i]) {
            lemma_signed_and_finalized(wallet, before, after, count, i);
            assert(witnesses[i].drop_last() =~= Seq::<Seq<u8>>::empty());
        } else {
            assert(after.inputs[i] == before.inputs[i]);
        }
    }
}

/// A wallet whose address pays to a Taproot key signs every output of its own that it
/// spends.
pub proof fn lemma_wallet_signs_all(
    utxos: Seq<Utxo>,
    script_pubkey: Seq<u8>,
    outputs: Seq<TxOutView>,
)
    requires
        is_p2tr(script_pubkey),
    ensures
        taproot_count(payment_psbt(wallet_inputs(utxos, script_pubkey), outputs).inputs)
            == utxos.len(),
{
    lemma_all_taproot(payment_psbt(wallet_inputs(utxos, script_pubkey), outputs).inputs);
}

proof fn lemma_all_taproot(inputs: Seq<PsbtInputView>)
    requires
        forall|i: int| 0 <= i < inputs.len() ==> is_taproot_input(#[trigger] inputs[i]),
    ensures
        taproot_count(inputs) == inputs.len(),
    decreases inputs.len(),
{
    if inputs.len() > 0 {
        assert(is_taproot_input(inputs[inputs.len() - 1]));
        lemma_all_taproot(inputs.drop_last());
    }
}

/// A transaction made from outputs that pay to Taproot keys spends these outputs, pays
/// what it is to pay, and the witness of each of its inputs is one signature that verifies
/// under the wallet's signing key.
pub proof fn lemma_spend_pays(
    wallet: WalletView,
    inputs: Seq<SpendInputView>,
    outputs: Seq<TxOutView>,
    spend: Spend,
    tx: Seq<u8>,
)
    requires
        forall|i: int| 0 <= i < inputs.len() ==> is_p2tr((#[trigger] inputs[i]).script_pubkey),
        inputs.len() > 0,
        is_spend_of(wallet, payment_psbt(inputs, outputs), spend),
        spend.tx_hex@ == hex_text(tx),
    ensures
        transaction_decoded(tx) matches Ok(content) && {
            let psbt = payment_psbt(inputs, outputs);
            &&& content.unsigned_tx == payment_tx(inputs, outputs)
            &&& content.witnesses.len() == inputs.len()
            &&& forall|i: int|
                0 <= i < inputs.len() ==> is_key_spend(
                    wallet,
                    psbt,
                    i,
                    #[trigger] content.witnesses[i],
                )
        },
        spend.signed == inputs.len(),
{
    let psbt = payment_psbt(inputs, outputs);
    let (signed, bytes) = choose|signed: PsbtView, bytes: Seq<u8>| #[trigger]
        signs(wallet, psbt, signed, Ok(spend.signed)) && extracted_tx(finalized(signed)) == Ok::<
            Seq<u8>,
            Seq<char>,
        >(bytes) && spend.tx_hex@ == #[trigger] hex_text(bytes) && encodes(
            bytes,
            psbt.unsigned_tx,
            final_witnesses(finalized(signed).inputs),
        );
    lemma_hex_round_trip(bytes);
    lemma_hex_round_trip(tx);
    assert(bytes == tx);
    assert forall|i: int| 0 <= i < inputs.len() implies is_taproot_input(
        #[trigger] psbt.inputs[i],
    ) by {
        assert(is_p2tr(inputs[i].script_pubkey));
    }
    lemma_all_taproot(psbt.inputs);
    let witnesses = final_witnesses(finalized(signed).inputs);
    assert forall|i: int| 0 <= i < inputs.len() implies is_key_spend(
        wallet,
        psbt,
        i,
        #[trigger] witnesses[i],
    ) by {
        assert(is_taproot_input(psbt.inputs[i]));
        lemma_signed_and_finalized(wallet, psbt, signed, spend.signed, i);
    }
}

/// Whether a witness is one signature of sixty-four bytes that verifies, for an input of
/// a PSBT, under the wallet's signing key.
pub open spec fn is_key_spend(
    wallet: WalletView,
    psbt: PsbtView,
    i: int,
    witness: Seq<Seq<u8>>,
) -> bool {
    &&& witness.len() == 1
    &&& witness[0].len() == 64
    &&& taproot_sighash(psbt.unsigned_tx, i as usize, prevouts(psbt.inputs)) matches Ok(digest)
    &&& schnorr_verifies(witness[0], digest, wallet.signing_key())
}

} // verus!
