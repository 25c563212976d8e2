//! Laws of payments: what is spent, what is paid, and what comes back.

use crate::api::Utxo;
use crate::encoding::{hex_text, lemma_hex_round_trip};
use crate::keys::{schnorr_verifies, tap_tweaked, xonly_public_key};
use crate::laws::signing::{law_finalized, law_signature_covers_what_is_spent};
use crate::psbt::{final_witnesses, PsbtInputView, PsbtView};
use crate::send::{
    created_psbt, created_send_all, has_txids, inputs_total, is_spend_of,
    lemma_wallet_inputs_total, payment_psbt, send_all_value, spend_input_views, spends, spends_all,
    utxos_total, wallet_inputs, Spend, SpendInputView,
};
use crate::sweep::sweeps;
use crate::tx::{
    total_value, transaction_decoded, txid_bytes, unsigned_tx_encoded, AddressView, TxOutView, Txid,
    UnsignedTxView,
};
use crate::wallet::{
    encoded_tx_sighash, finalized, lemma_signed_and_finalized, signs, taproot_count, WalletView,
};
use vstd::prelude::*;

verus! {

/// The total of outputs to be spent is the sum of their amounts.
pub proof fn law_inputs_total(inputs: Seq<SpendInputView>)
    ensures
        inputs_total(inputs) == inputs.fold_left(
            0nat,
            |sum: nat, x: SpendInputView| sum + x.value as nat,
        ),
    decreases inputs.len(),
{
    if inputs.len() > 0 {
        law_inputs_total(inputs.drop_last());
    }
}

/// The total of unspent outputs is the sum of their amounts.
pub proof fn law_utxos_total(utxos: Seq<Utxo>)
    ensures
        utxos_total(utxos) == utxos.fold_left(0nat, |sum: nat, u: Utxo| sum + u.value as nat),
    decreases utxos.len(),
{
    if utxos.len() > 0 {
        law_utxos_total(utxos.drop_last());
    }
}

/// The total of two lists of unspent outputs together is the sum of their totals.
pub proof fn law_utxos_total_adds(a: Seq<Utxo>, b: Seq<Utxo>)
    ensures
        utxos_total(a + b) == utxos_total(a) + utxos_total(b),
    decreases b.len(),
{
    if b.len() > 0 {
        assert((a + b).drop_last() =~= a + b.drop_last());
        law_utxos_total_adds(a, b.drop_last());
    } else {
        assert(a + b =~= a);
    }
}

/// The total of the outputs of a transaction is the sum of their amounts.
pub proof fn law_total_value(outputs: Seq<TxOutView>)
    ensures
        total_value(outputs) == outputs.fold_left(
            0nat,
            |sum: nat, o: TxOutView| sum + o.value as nat,
        ),
    decreases outputs.len(),
{
    if outputs.len() > 0 {
        law_total_value(outputs.drop_last());
    }
}

/// Each unspent output of a wallet is spent as itself: with the identifier that its own
/// text writes, its own index and its own amount, and with the script of the wallet.
pub proof fn law_wallet_inputs(utxos: Seq<Utxo>, script_pubkey: Seq<u8>, i: int)
    requires
        has_txids(utxos),
        0 <= i < utxos.len(),
    ensures
        wallet_inputs(utxos, script_pubkey).len() == utxos.len(),
        txid_bytes(utxos[i].txid@) == Some(wallet_inputs(utxos, script_pubkey)[i].txid),
        wallet_inputs(utxos, script_pubkey)[i].vout == utxos[i].vout,
        wallet_inputs(utxos, script_pubkey)[i].value == utxos[i].value,
        wallet_inputs(utxos, script_pubkey)[i].script_pubkey == script_pubkey,
{
    assert(txid_bytes(utxos[i].txid@) is Some);
}

/// The identifiers of unspent outputs can be read if and only if each can.
pub proof fn law_readable_identifiers(utxos: Seq<Utxo>)
    ensures
        has_txids(utxos) <==> forall|i: int|
            0 <= i < utxos.len() ==> txid_bytes((#[trigger] utxos[i]).txid@) is Some,
{
}

/// An output to be spent is given by its identifier, index, amount and script.
pub proof fn law_spend_inputs(s: Seq<(Txid, u32, u64, Vec<u8>)>, i: int)
    requires
        0 <= i < s.len(),
    ensures
        spend_input_views(s).len() == s.len(),
        spend_input_views(s)[i].txid == s[i].0@,
        spend_input_views(s)[i].vout == s[i].1,
        spend_input_views(s)[i].value == s[i].2,
        spend_input_views(s)[i].script_pubkey == s[i].3@,
{
}

/// When a payment can be made: a fee of 150 satoshis for each input and 200 more must be
/// computable, and the inputs must be worth the amount and that fee.
pub proof fn law_payment_is_possible(
    inputs: Seq<SpendInputView>,
    destination: AddressView,
    amount: u64,
    change_address: AddressView,
)
    ensures
        ({
            let n = inputs.len();
            let created = created_psbt(inputs, destination, amount, change_address);
            let computable = 150_000 * n + 200_999 <= u64::MAX;
            let covered = amount + 150 * n + 200 <= inputs_total(inputs);
            &&& created is Ok <==> computable && covered
            &&& !computable ==> created == Err::<PsbtView, Seq<char>>("Failed to calculate fee"@)
            &&& computable && !covered ==> created == Err::<PsbtView, Seq<char>>(
                "Insufficient funds"@,
            )
        }),
{
}

/// What a payment holds: each input spends the output at its place, with the final
/// sequence number, and holds that output's amount and script and nothing else; the first
/// output pays the amount to the destination; what is left after the amount and the fee
/// goes to the change address, if it is more than 546 satoshis, and to nobody otherwise.
pub proof fn law_payment(
    inputs: Seq<SpendInputView>,
    destination: AddressView,
    amount: u64,
    change_address: AddressView,
)
    requires
        inputs_total(inputs) <= u64::MAX,
    ensures
        created_psbt(inputs, destination, amount, change_address) matches Ok(psbt) ==> {
            let left = inputs_total(inputs) - amount - 150 * inputs.len() - 200;
            let outputs = psbt.unsigned_tx.outputs;
            &&& spends_inputs(psbt, inputs)
            &&& outputs.len() == (if left > 546 {
                2int
            } else {
                1
            })
            &&& outputs[0].value == amount
            &&& outputs[0].script_pubkey == destination.script_pubkey
            &&& left > 546 ==> outputs[1].value == left && outputs[1].script_pubkey
                == change_address.script_pubkey
        },
{
}

/// That a PSBT of a transaction of version two, without a lock time, spends the given
/// outputs, each at its place, and holds their amounts and scripts.
pub open spec fn spends_inputs(psbt: PsbtView, inputs: Seq<SpendInputView>) -> bool {
    &&& psbt.unsigned_tx.version == 2
    &&& psbt.unsigned_tx.lock_time == 0
    &&& psbt.unsigned_tx.inputs.len() == inputs.len()
    &&& psbt.inputs.len() == inputs.len()
    &&& forall|i: int|
        0 <= i < inputs.len() ==> {
            &&& (#[trigger] psbt.unsigned_tx.inputs[i]).txid == inputs[i].txid
            &&& psbt.unsigned_tx.inputs[i].vout == inputs[i].vout
            &&& psbt.unsigned_tx.inputs[i].sequence == 0xffff_ffff
        }
    &&& forall|i: int|
        0 <= i < inputs.len() ==> {
            &&& (#[trigger] psbt.inputs[i]).witness_utxo matches Some(utxo)
            &&& utxo.value == inputs[i].value
            &&& utxo.script_pubkey == inputs[i].script_pubkey
            &&& psbt.inputs[i].non_witness_values is None
            &&& psbt.inputs[i].tap_internal_key is None
            &&& psbt.inputs[i].tap_key_sig is None
            &&& psbt.inputs[i].final_script_witness is None
        }
}

/// Sending everything: it is possible if and only if the inputs are worth more than a
/// thousand satoshis; each is spent at its place, and the one output pays all but a
/// thousand to the destination.
pub proof fn law_send_all(inputs: Seq<SpendInputView>, destination: AddressView)
    requires
        inputs_total(inputs) <= u64::MAX,
    ensures
        created_send_all(inputs, destination) is Ok <==> inputs_total(inputs) > 1000,
        inputs_total(inputs) <= 1000 ==> created_send_all(inputs, destination) == Err::<
            PsbtView,
            Seq<char>,
        >("Not enough balance for fee"@),
        created_send_all(inputs, destination) matches Ok(psbt) ==> {
            &&& spends_inputs(psbt, inputs)
            &&& psbt.unsigned_tx.outputs.len() == 1
            &&& psbt.unsigned_tx.outputs[0].value + 1000 == inputs_total(inputs)
            &&& psbt.unsigned_tx.outputs[0].script_pubkey == destination.script_pubkey
        },
{
}

/// The amount that is sent when everything is.
pub proof fn law_send_all_value(total: nat)
    ensures
        total > 1000 ==> send_all_value(total) + 1000 == total,
        total <= 1000 ==> send_all_value(total) == 0,
{
}

/// Whether a transaction spends the unspent outputs of a wallet, each as itself and each
/// with a signature of its own: input `i` has the identifier that the text of output `i`
/// writes and its index, and its witness is one signature of sixty-four bytes that
/// verifies, under the x-only public key of the wallet's tweaked secret key, for the digest
/// of that input over the amounts of all these outputs and the wallet's script.
pub open spec fn spends_wallet_outputs(
    wallet: WalletView,
    utxos: Seq<Utxo>,
    tx: UnsignedTxView,
    witnesses: Seq<Seq<Seq<u8>>>,
) -> bool {
    let spent = Seq::new(
        utxos.len(),
        |j: int|
            TxOutView { value: utxos[j].value, script_pubkey: wallet.address.script_pubkey },
    );
    &&& tx.version == 2
    &&& tx.lock_time == 0
    &&& tx.inputs.len() == utxos.len()
    &&& witnesses.len() == utxos.len()
    &&& forall|i: int|
        0 <= i < utxos.len() ==> {
            &&& Some((#[trigger] tx.inputs[i]).txid) == txid_bytes(utxos[i].txid@)
            &&& tx.inputs[i].vout == utxos[i].vout
        }
    &&& forall|i: int|
        0 <= i < utxos.len() ==> {
            &&& (#[trigger] witnesses[i]).len() == 1
            &&& witnesses[i][0].len() == 64
            &&& encoded_tx_sighash(unsigned_tx_encoded(tx), i as usize, spent) matches Ok(digest)
            &&& schnorr_verifies(
                witnesses[i][0],
                digest,
                xonly_public_key(tap_tweaked(wallet.secret)),
            )
        }
}

/// What is broadcast, for a PSBT of a payment from a wallet's outputs.
proof fn lemma_broadcast_content(
    wallet: WalletView,
    utxos: Seq<Utxo>,
    outputs: Seq<TxOutView>,
    spend: Spend,
    tx: Seq<u8>,
)
    requires
        has_txids(utxos),
        wallet.address.script_pubkey.len() == 34,
        wallet.address.script_pubkey[0] == 0x51,
        wallet.address.script_pubkey[1] == 0x20,
        is_spend_of(
            wallet,
            payment_psbt(wallet_inputs(utxos, wallet.address.script_pubkey), outputs),
            spend,
        ),
        spend.tx_hex@ == hex_text(tx),
    ensures
        spend.signed == utxos.len(),
        transaction_decoded(tx) matches Ok(content) && content.unsigned_tx.outputs == outputs
            && spends_wallet_outputs(wallet, utxos, content.unsigned_tx, content.witnesses),
{
    let inputs = wallet_inputs(utxos, wallet.address.script_pubkey);
    let psbt = payment_psbt(inputs, outputs);
    let (signed, bytes) = choose|signed: PsbtView, bytes: Seq<u8>| #[trigger]
        signs(wallet, psbt, signed, Ok(spend.signed)) && crate::psbt::extracted_tx(
            finalized(signed),
        ) == Ok::<Seq<u8>, Seq<char>>(bytes) && spend.tx_hex@ == #[trigger] hex_text(bytes)
            && crate::tx::encodes(
            bytes,
            psbt.unsigned_tx,
            final_witnesses(finalized(signed).inputs),
        );
    lemma_hex_round_trip(bytes);
    lemma_hex_round_trip(tx);
    assert(bytes == tx);
    let witnesses = final_witnesses(finalized(signed).inputs);
    let spent = Seq::new(
        utxos.len(),
        |j: int|
            TxOutView { value: utxos[j].value, script_pubkey: wallet.address.script_pubkey },
    );
    assert(spent =~= Seq::new(psbt.inputs.len(), |j: int| psbt.inputs[j].witness_utxo->0));
    assert forall|i: int| 0 <= i < utxos.len() implies ({
        &&& (#[trigger] witnesses[i]).len() == 1
        &&& witnesses[i][0].len() == 64
        &&& encoded_tx_sighash(unsigned_tx_encoded(psbt.unsigned_tx), i as usize, spent) matches Ok(
            digest,
        )
        &&& schnorr_verifies(
            witnesses[i][0],
            digest,
            xonly_public_key(tap_tweaked(wallet.secret)),
        )
    }) by {
        law_signature_covers_what_is_spent(wallet, psbt, signed, spend.signed, i);
        lemma_signed_and_finalized(wallet, psbt, signed, spend.signed, i);
        law_finalized(signed, i);
    }
    assert forall|i: int| 0 <= i < utxos.len() implies ({
        &&& Some((#[trigger] psbt.unsigned_tx.inputs[i]).txid) == txid_bytes(utxos[i].txid@)
        &&& psbt.unsigned_tx.inputs[i].vout == utxos[i].vout
    }) by {
        law_wallet_inputs(utxos, wallet.address.script_pubkey, i);
    }
    lemma_all_signed(psbt.inputs);
}

proof fn lemma_all_signed(inputs: Seq<PsbtInputView>)
    requires
        forall|i: int|
            0 <= i < inputs.len() ==> ((#[trigger] inputs[i]).witness_utxo matches Some(utxo)
                && utxo.script_pubkey.len() == 34 && utxo.script_pubkey[0] == 0x51
                && utxo.script_pubkey[1] == 0x20),
    ensures
        taproot_count(inputs) == inputs.len(),
    decreases inputs.len(),
{
    if inputs.len() > 0 {
        assert(inputs[inputs.len() - 1].witness_utxo is Some);
        assert forall|i: int| 0 <= i < inputs.drop_last().len() implies ((#[trigger]
        inputs.drop_last()[i]).witness_utxo matches Some(utxo) && utxo.script_pubkey.len() == 34
            && utxo.script_pubkey[0] == 0x51 && utxo.script_pubkey[1] == 0x20) by {
            assert(inputs.drop_last()[i] == inputs[i]);
        }
        lemma_all_signed(inputs.drop_last());
    }
}

/// Paying an amount from a wallet's unspent outputs: it succeeds if and only if they are
/// worth the amount and the fee; the transaction spends each of them as itself, with
/// signatures that hold, pays the amount to the destination first, and returns to the
/// wallet what is left, if it is more than 546 satoshis.
pub proof fn law_spend(
    wallet: WalletView,
    utxos: Seq<Utxo>,
    destination: AddressView,
    amount: u64,
    r: Result<Spend, String>,
)
    requires
        has_txids(utxos),
        utxos_total(utxos) <= u64::MAX,
        wallet.address.script_pubkey.len() == 34,
        wallet.address.script_pubkey[0] == 0x51,
        wallet.address.script_pubkey[1] == 0x20,
        spends(
            wallet,
            wallet_inputs(utxos, wallet.address.script_pubkey),
            destination,
            amount,
            r,
        ),
    ensures
        r is Ok <==> (150_000 * utxos.len() + 200_999 <= u64::MAX && amount + 150 * utxos.len()
            + 200 <= utxos_total(utxos)),
        r matches Ok(spend) ==> spend.signed == utxos.len() && forall|tx: Seq<u8>|
            spend.tx_hex@ == #[trigger] hex_text(tx) ==> (transaction_decoded(tx) matches Ok(content)
                && {
                let left = utxos_total(utxos) - amount - 150 * utxos.len() - 200;
                let outputs = content.unsigned_tx.outputs;
                &&& spends_wallet_outputs(wallet, utxos, content.unsigned_tx, content.witnesses)
                &&& outputs.len() == (if left > 546 {
                    2int
                } else {
                    1
                })
                &&& outputs[0].value == amount
                &&& outputs[0].script_pubkey == destination.script_pubkey
                &&& left > 546 ==> outputs[1].value == left && outputs[1].script_pubkey
                    == wallet.address.script_pubkey
            }),
{
    let inputs = wallet_inputs(utxos, wallet.address.script_pubkey);
    lemma_wallet_inputs_total(utxos, wallet.address.script_pubkey);
    law_payment_is_possible(inputs, destination, amount, wallet.address);
    law_payment(inputs, destination, amount, wallet.address);
    if let Ok(spend) = r {
        let psbt = created_psbt(inputs, destination, amount, wallet.address)->Ok_0;
        let outputs = psbt.unsigned_tx.outputs;
        assert(psbt == payment_psbt(inputs, outputs));
        assert(exists|tx: Seq<u8>| spend.tx_hex@ == #[trigger] hex_text(tx));
        let some = choose|tx: Seq<u8>| spend.tx_hex@ == #[trigger] hex_text(tx);
        lemma_broadcast_content(wallet, utxos, outputs, spend, some);
        assert forall|tx: Seq<u8>| spend.tx_hex@ == #[trigger] hex_text(tx) implies (
        transaction_decoded(tx) matches Ok(content) && content.unsigned_tx.outputs == outputs
            && spends_wallet_outputs(wallet, utxos, content.unsigned_tx, content.witnesses)) by {
            lemma_broadcast_content(wallet, utxos, outputs, spend, tx);
        }
    }
}

/// Sending everything from a wallet's unspent outputs: it succeeds if and only if they are
/// worth more than a thousand satoshis; the transaction spends each of them as itself, with
/// signatures that hold, and its one output pays all but a thousand to the destination.
pub proof fn law_spend_all(
    wallet: WalletView,
    utxos: Seq<Utxo>,
    destination: AddressView,
    r: Result<Spend, String>,
)
    requires
        has_txids(utxos),
        utxos_total(utxos) <= u64::MAX,
        wallet.address.script_pubkey.len() == 34,
        wallet.address.script_pubkey[0] == 0x51,
        wallet.address.script_pubkey[1] == 0x20,
        spends_all(wallet, wallet_inputs(utxos, wallet.address.script_pubkey), destination, r),
    ensures
        r is Ok <==> utxos_total(utxos) > 1000,
        r matches Ok(spend) ==> spend.signed == utxos.len() && forall|tx: Seq<u8>|
            spend.tx_hex@ == #[trigger] hex_text(tx) ==> (transaction_decoded(tx) matches Ok(content)
                && {
                let outputs = content.unsigned_tx.outputs;
                &&& spends_wallet_outputs(wallet, utxos, content.unsigned_tx, content.witnesses)
                &&& outputs.len() == 1
                &&& outputs[0].value + 1000 == utxos_total(utxos)
                &&& outputs[0].script_pubkey == destination.script_pubkey
            }),
{
    let inputs = wallet_inputs(utxos, wallet.address.script_pubkey);
    lemma_wallet_inputs_total(utxos, wallet.address.script_pubkey);
    law_send_all(inputs, destination);
    if let Ok(spend) = r {
        let psbt = created_send_all(inputs, destination)->Ok_0;
        let outputs = psbt.unsigned_tx.outputs;
        assert(psbt == payment_psbt(inputs, outputs));
        assert(exists|tx: Seq<u8>| spend.tx_hex@ == #[trigger] hex_text(tx));
        let some = choose|tx: Seq<u8>| spend.tx_hex@ == #[trigger] hex_text(tx);
        lemma_broadcast_content(wallet, utxos, outputs, spend, some);
        assert forall|tx: Seq<u8>| spend.tx_hex@ == #[trigger] hex_text(tx) implies (
        transaction_decoded(tx) matches Ok(content) && content.unsigned_tx.outputs == outputs
            && spends_wallet_outputs(wallet, utxos, content.unsigned_tx, content.witnesses)) by {
            lemma_broadcast_content(wallet, utxos, outputs, spend, tx);
        }
    }
}

/// Why a payment or sending everything is refused.
pub proof fn law_refused_spends(
    wallet: WalletView,
    inputs: Seq<SpendInputView>,
    destination: AddressView,
    amount: u64,
    paying: Result<Spend, String>,
    sending_all: Result<Spend, String>,
)
    requires
        spends(wallet, inputs, destination, amount, paying),
        spends_all(wallet, inputs, destination, sending_all),
    ensures
        150_000 * inputs.len() + 200_999 <= u64::MAX && amount + 150 * inputs.len() + 200
            > inputs_total(inputs) ==> (paying matches Err(e) && e@ == "Failed to create PSBT: "@
            + "Insufficient funds"@),
        150_000 * inputs.len() + 200_999 > u64::MAX ==> (paying matches Err(e) && e@
            == "Failed to create PSBT: "@ + "Failed to calculate fee"@),
        inputs_total(inputs) <= 1000 ==> (sending_all matches Err(e) && e@
            == "Failed to create PSBT: "@ + "Not enough balance for fee"@),
{
}

/// A sweep of more than a thousand satoshis sends everything; a smaller one is a payment of
/// nothing.
pub proof fn law_sweep(
    wallet: WalletView,
    inputs: Seq<SpendInputView>,
    destination: AddressView,
    r: Result<Spend, String>,
)
    requires
        sweeps(wallet, inputs, destination, r),
    ensures
        inputs_total(inputs) > 1000 ==> spends_all(wallet, inputs, destination, r),
        inputs_total(inputs) <= 1000 ==> spends(wallet, inputs, destination, 0, r),
{
}

} // verus!
