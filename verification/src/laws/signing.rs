//! Laws of signing PSBTs and making them final.

use crate::keys::{schnorr_verifies, tap_tweaked, xonly_public_key};
use crate::psbt::{PsbtInputView, PsbtView};
use crate::tx::{unsigned_tx_encoded, TxOutView};
use crate::wallet::{
    encoded_tx_sighash, finalized, first_taproot, input_signed, is_first_taproot, is_signed,
    is_taproot_input, prevouts, signing_refusal, signs, taproot_count, with_internal_key,
    WalletView,
};
use vstd::prelude::*;

verus! {

/// The outputs over which a digest is computed are those that the inputs name, in order
/// and unchanged.
pub proof fn law_outputs_of_the_digest(inputs: Seq<PsbtInputView>)
    ensures
        prevouts(inputs) == inputs.filter(
            |x: PsbtInputView| x.witness_utxo is Some,
        ).map_values(|x: PsbtInputView| x.witness_utxo->0),
    decreases inputs.len(),
{
    reveal(Seq::filter);
    let named = |x: PsbtInputView| x.witness_utxo is Some;
    let spent = |x: PsbtInputView| x.witness_utxo->0;
    if inputs.len() > 0 {
        let front = inputs.drop_last();
        law_outputs_of_the_digest(front);
        if inputs.last().witness_utxo is Some {
            assert(inputs.filter(named) == front.filter(named).push(inputs.last()));
            assert(inputs.filter(named).map_values(spent) =~= front.filter(named).map_values(
                spent,
            ).push(inputs.last().witness_utxo->0));
        }
    } else {
        assert(inputs.filter(named).map_values(spent) =~= Seq::<TxOutView>::empty());
    }
}

/// Where every input names the output that it spends, there are as many outputs as inputs,
/// and each is the one that its input names, amount and script.
pub proof fn law_every_input_counts_with_its_output(inputs: Seq<PsbtInputView>)
    requires
        forall|i: int| 0 <= i < inputs.len() ==> (#[trigger] inputs[i]).witness_utxo is Some,
    ensures
        prevouts(inputs).len() == inputs.len(),
        forall|i: int|
            0 <= i < inputs.len() ==> Some(#[trigger] prevouts(inputs)[i])
                == inputs[i].witness_utxo,
    decreases inputs.len(),
{
    if inputs.len() > 0 {
        let front = inputs.drop_last();
        assert forall|i: int| 0 <= i < front.len() implies (#[trigger] front[i]).witness_utxo
            is Some by {
            assert(front[i] == inputs[i]);
        }
        law_every_input_counts_with_its_output(front);
        assert(inputs[inputs.len() - 1].witness_utxo is Some);
        assert forall|i: int| 0 <= i < inputs.len() implies Some(#[trigger] prevouts(inputs)[i])
            == inputs[i].witness_utxo by {
            if i < front.len() {
                assert(Some(prevouts(front)[i]) == front[i].witness_utxo);
            }
        }
    }
}

/// The outputs of two lists of inputs together are those of the one and those of the
/// other.
pub proof fn law_outputs_add(a: Seq<PsbtInputView>, b: Seq<PsbtInputView>)
    ensures
        prevouts(a + b) == prevouts(a) + prevouts(b),
        taproot_count(a + b) == taproot_count(a) + taproot_count(b),
    decreases b.len(),
{
    if b.len() > 0 {
        assert((a + b).drop_last() =~= a + b.drop_last());
        assert((a + b).last() == b.last());
        law_outputs_add(a, b.drop_last());
        assert(prevouts(a + b) =~= prevouts(a) + prevouts(b));
    } else {
        assert(a + b =~= a);
        assert(prevouts(a) + prevouts(b) =~= prevouts(a));
    }
}

/// The count is the number of inputs that spend from a script of thirty-four bytes that
/// starts with 51 and 20 in hexadecimal.
pub proof fn law_count(inputs: Seq<PsbtInputView>)
    ensures
        taproot_count(inputs) == inputs.filter(
            |x: PsbtInputView|
                x.witness_utxo matches Some(utxo) && utxo.script_pubkey.len() == 34
                    && utxo.script_pubkey[0] == 0x51 && utxo.script_pubkey[1] == 0x20,
        ).len(),
    decreases inputs.len(),
{
    reveal(Seq::filter);
    if inputs.len() > 0 {
        law_count(inputs.drop_last());
    }
}

/// Whether an input is signed rests on the script that it spends from alone.
pub proof fn law_signed_scripts(input: PsbtInputView)
    ensures
        is_taproot_input(input) <==> (input.witness_utxo matches Some(utxo)
            && utxo.script_pubkey.len() == 34 && utxo.script_pubkey[0] == 0x51
            && utxo.script_pubkey[1] == 0x20),
{
}

/// What signing makes of an input. One that spends from a Taproot key gets a signature of
/// sixty-four bytes that verifies, under the x-only public key of the tweaked secret key,
/// for the digest of that input over the outputs that all inputs name; it gets the wallet's
/// x-only public key as its internal key unless it has one; nothing else of it changes. No
/// other input changes, nor the transaction.
pub proof fn law_signed_input(
    wallet: WalletView,
    before: PsbtView,
    after: PsbtView,
    count: usize,
    i: int,
)
    requires
        signs(wallet, before, after, Ok(count)),
        0 <= i < before.inputs.len(),
    ensures
        after.unsigned_tx == before.unsigned_tx,
        after.origin == before.origin,
        after.inputs.len() == before.inputs.len(),
        after.inputs[i].witness_utxo == before.inputs[i].witness_utxo,
        after.inputs[i].non_witness_values == before.inputs[i].non_witness_values,
        after.inputs[i].final_script_witness == before.inputs[i].final_script_witness,
        if (before.inputs[i].witness_utxo matches Some(utxo) && utxo.script_pubkey.len() == 34
            && utxo.script_pubkey[0] == 0x51 && utxo.script_pubkey[1] == 0x20) {
            let spent = before.inputs.filter(
                |x: PsbtInputView| x.witness_utxo is Some,
            ).map_values(|x: PsbtInputView| x.witness_utxo->0);
            &&& after.inputs[i].tap_internal_key == Some(
                match before.inputs[i].tap_internal_key {
                    Some(key) => key,
                    None => xonly_public_key(wallet.secret),
                },
            )
            &&& after.inputs[i].tap_key_sig matches Some(sig)
            &&& sig.len() == 64
            &&& encoded_tx_sighash(
                unsigned_tx_encoded(before.unsigned_tx),
                i as usize,
                spent,
            ) matches Ok(digest)
            &&& schnorr_verifies(sig, digest, xonly_public_key(tap_tweaked(wallet.secret)))
        } else {
            after.inputs[i] == before.inputs[i]
        },
{
    law_outputs_of_the_digest(before.inputs);
    assert(input_signed(wallet, before, after, i)) by {
        let _ = after.inputs[i];
    }
}

/// A signature covers the outputs that are really spent: where every input names its
/// output, it verifies for the digest over exactly these, each at the place of its input.
pub proof fn law_signature_covers_what_is_spent(
    wallet: WalletView,
    before: PsbtView,
    after: PsbtView,
    count: usize,
    i: int,
)
    requires
        signs(wallet, before, after, Ok(count)),
        forall|j: int|
            0 <= j < before.inputs.len() ==> (#[trigger] before.inputs[j]).witness_utxo is Some,
        0 <= i < before.inputs.len(),
        before.inputs[i].witness_utxo->0.script_pubkey.len() == 34,
        before.inputs[i].witness_utxo->0.script_pubkey[0] == 0x51,
        before.inputs[i].witness_utxo->0.script_pubkey[1] == 0x20,
    ensures
        after.inputs[i].tap_key_sig matches Some(sig) && (encoded_tx_sighash(
            unsigned_tx_encoded(before.unsigned_tx),
            i as usize,
            Seq::new(before.inputs.len(), |j: int| before.inputs[j].witness_utxo->0),
        ) matches Ok(digest) && schnorr_verifies(
            sig,
            digest,
            xonly_public_key(tap_tweaked(wallet.secret)),
        )),
{
    law_every_input_counts_with_its_output(before.inputs);
    law_outputs_of_the_digest(before.inputs);
    law_signed_input(wallet, before, after, count, i);
    let spent = Seq::new(before.inputs.len(), |j: int| before.inputs[j].witness_utxo->0);
    assert forall|j: int| 0 <= j < spent.len() implies spent[j] == prevouts(before.inputs)[j] by {
        assert(Some(prevouts(before.inputs)[j]) == before.inputs[j].witness_utxo);
    }
    assert(spent =~= prevouts(before.inputs));
}

/// The number that signing reports is the number of inputs that spend from a Taproot key.
pub proof fn law_signed_number(
    wallet: WalletView,
    before: PsbtView,
    after: PsbtView,
    count: usize,
)
    requires
        signs(wallet, before, after, Ok(count)),
    ensures
        count == before.inputs.filter(
            |x: PsbtInputView|
                x.witness_utxo matches Some(utxo) && utxo.script_pubkey.len() == 34
                    && utxo.script_pubkey[0] == 0x51 && utxo.script_pubkey[1] == 0x20,
        ).len(),
{
    law_count(before.inputs);
}

/// Signing succeeds where every input names its output, and there is one.
pub proof fn law_signing_succeeds(
    wallet: WalletView,
    before: PsbtView,
    after: PsbtView,
    r: Result<usize, Seq<char>>,
)
    requires
        signs(wallet, before, after, r),
        before.inputs.len() > 0,
        before.unsigned_tx.inputs.len() == before.inputs.len(),
        forall|i: int|
            0 <= i < before.inputs.len() ==> (#[trigger] before.inputs[i]).witness_utxo is Some,
    ensures
        r is Ok,
{
    law_every_input_counts_with_its_output(before.inputs);
}

/// Signing is refused where no input names its output; nothing changes then.
pub proof fn law_signing_without_outputs(
    wallet: WalletView,
    before: PsbtView,
    after: PsbtView,
    r: Result<usize, Seq<char>>,
)
    requires
        signs(wallet, before, after, r),
        forall|i: int|
            0 <= i < before.inputs.len() ==> (#[trigger] before.inputs[i]).witness_utxo is None,
    ensures
        r == Err::<usize, Seq<char>>("No witness_utxo found in PSBT inputs"@),
        after == before,
{
    lemma_none_named(before.inputs);
}

proof fn lemma_none_named(inputs: Seq<PsbtInputView>)
    requires
        forall|i: int| 0 <= i < inputs.len() ==> (#[trigger] inputs[i]).witness_utxo is None,
    ensures
        prevouts(inputs).len() == 0,
    decreases inputs.len(),
{
    if inputs.len() > 0 {
        assert(inputs[inputs.len() - 1].witness_utxo is None);
        lemma_none_named(inputs.drop_last());
    }
}

proof fn lemma_some_named(inputs: Seq<PsbtInputView>, k: int)
    requires
        0 <= k < inputs.len(),
        inputs[k].witness_utxo is Some,
    ensures
        prevouts(inputs).len() > 0,
    decreases inputs.len(),
{
    if k < inputs.len() - 1 {
        assert(inputs.drop_last()[k] == inputs[k]);
        lemma_some_named(inputs.drop_last(), k);
    }
}

proof fn lemma_named_at_most(inputs: Seq<PsbtInputView>, k: int)
    requires
        0 <= k < inputs.len(),
        inputs[k].witness_utxo is None,
    ensures
        prevouts(inputs).len() < inputs.len(),
    decreases inputs.len(),
{
    lemma_at_most_all(inputs.drop_last());
    if k < inputs.len() - 1 {
        assert(inputs.drop_last()[k] == inputs[k]);
        lemma_named_at_most(inputs.drop_last(), k);
    }
}

proof fn lemma_at_most_all(inputs: Seq<PsbtInputView>)
    ensures
        prevouts(inputs).len() <= inputs.len(),
    decreases inputs.len(),
{
    if inputs.len() > 0 {
        lemma_at_most_all(inputs.drop_last());
    }
}

proof fn lemma_no_taproot(inputs: Seq<PsbtInputView>)
    requires
        forall|i: int| 0 <= i < inputs.len() ==> !is_taproot_input(#[trigger] inputs[i]),
    ensures
        taproot_count(inputs) == 0,
    decreases inputs.len(),
{
    if inputs.len() > 0 {
        assert(!is_taproot_input(inputs[inputs.len() - 1]));
        lemma_no_taproot(inputs.drop_last());
    }
}

proof fn lemma_positive_count(inputs: Seq<PsbtInputView>, k: int)
    requires
        0 <= k < inputs.len(),
        is_taproot_input(inputs[k]),
    ensures
        taproot_count(inputs) > 0,
    decreases inputs.len(),
{
    if k < inputs.len() - 1 {
        assert(inputs.drop_last()[k] == inputs[k]);
        lemma_positive_count(inputs.drop_last(), k);
    }
}

/// Where some input names its output and none spends from a Taproot key, signing succeeds,
/// counts nothing and changes nothing.
pub proof fn law_nothing_to_sign(
    wallet: WalletView,
    before: PsbtView,
    after: PsbtView,
    r: Result<usize, Seq<char>>,
    k: int,
)
    requires
        signs(wallet, before, after, r),
        0 <= k < before.inputs.len(),
        before.inputs[k].witness_utxo is Some,
        forall|i: int|
            0 <= i < before.inputs.len() ==> !((#[trigger] before.inputs[i]).witness_utxo matches Some(
                utxo,
            ) && utxo.script_pubkey.len() == 34 && utxo.script_pubkey[0] == 0x51
                && utxo.script_pubkey[1] == 0x20),
    ensures
        r == Ok::<usize, Seq<char>>(0),
        after == before,
{
    lemma_some_named(before.inputs, k);
    assert forall|i: int| 0 <= i < before.inputs.len() implies !is_taproot_input(
        #[trigger] before.inputs[i],
    ) by {
        law_signed_scripts(before.inputs[i]);
    }
    lemma_no_taproot(before.inputs);
    assert forall|i: int| 0 <= i < before.inputs.len() implies #[trigger] after.inputs[i]
        == before.inputs[i] by {
        assert(input_signed(wallet, before, after, i));
    }
    assert(after.inputs =~= before.inputs);
}

/// Where an input spends from a Taproot key and another names no output, signing is refused
/// at the first input that spends from such a key; that input has its internal key set,
/// and nothing else changes.
pub proof fn law_signing_with_missing_outputs(
    wallet: WalletView,
    before: PsbtView,
    after: PsbtView,
    r: Result<usize, Seq<char>>,
    first: int,
    missing: int,
)
    requires
        signs(wallet, before, after, r),
        before.unsigned_tx.inputs.len() == before.inputs.len(),
        0 <= missing < before.inputs.len(),
        before.inputs[missing].witness_utxo is None,
        0 <= first < before.inputs.len(),
        before.inputs[first].witness_utxo matches Some(utxo) && utxo.script_pubkey.len() == 34
            && utxo.script_pubkey[0] == 0x51 && utxo.script_pubkey[1] == 0x20,
        forall|i: int|
            0 <= i < first ==> !((#[trigger] before.inputs[i]).witness_utxo matches Some(utxo)
                && utxo.script_pubkey.len() == 34 && utxo.script_pubkey[0] == 0x51
                && utxo.script_pubkey[1] == 0x20),
    ensures
        r == Err::<usize, Seq<char>>(
            "Sighash failed: "@ + encoded_tx_sighash(
                unsigned_tx_encoded(before.unsigned_tx),
                first as usize,
                before.inputs.filter(|x: PsbtInputView| x.witness_utxo is Some).map_values(
                    |x: PsbtInputView| x.witness_utxo->0,
                ),
            )->Err_0,
        ),
        after.unsigned_tx == before.unsigned_tx,
        after.origin == before.origin,
        after.inputs.len() == before.inputs.len(),
        forall|i: int|
            0 <= i < before.inputs.len() && i != first ==> #[trigger] after.inputs[i]
                == before.inputs[i],
        after.inputs[first] == (PsbtInputView {
            tap_internal_key: Some(
                match before.inputs[first].tap_internal_key {
                    Some(key) => key,
                    None => xonly_public_key(wallet.secret),
                },
            ),
            ..before.inputs[first]
        }),
{
    law_outputs_of_the_digest(before.inputs);
    lemma_some_named(before.inputs, first);
    lemma_named_at_most(before.inputs, missing);
    lemma_positive_count(before.inputs, first);
    assert forall|i: int| 0 <= i < first implies !is_taproot_input(
        #[trigger] before.inputs[i],
    ) by {
        law_signed_scripts(before.inputs[i]);
    }
    assert(is_first_taproot(before.inputs, first));
    let k = first_taproot(before.inputs);
    assert(is_first_taproot(before.inputs, k));
    assert(k == first) by {
        if k < first {
            assert(!is_taproot_input(before.inputs[k]));
        }
        if first < k {
            assert(!is_taproot_input(before.inputs[first]));
        }
    }
}

/// When and how the signing of a PSBT with one input for each input of its transaction is
/// refused: where no input names its output, and where an input spends from a Taproot key
/// while another names no output.
pub proof fn law_signing_refusal(psbt: PsbtView)
    requires
        psbt.unsigned_tx.inputs.len() == psbt.inputs.len(),
    ensures
        (forall|i: int|
            0 <= i < psbt.inputs.len() ==> (#[trigger] psbt.inputs[i]).witness_utxo is None)
            ==> signing_refusal(psbt) == Some("No witness_utxo found in PSBT inputs"@),
        psbt.inputs.len() > 0 && (forall|i: int|
            0 <= i < psbt.inputs.len() ==> (#[trigger] psbt.inputs[i]).witness_utxo is Some)
            ==> signing_refusal(psbt) is None,
        forall|k: int, m: int|
            #![trigger psbt.inputs[k], psbt.inputs[m]]
            0 <= k < psbt.inputs.len() && 0 <= m < psbt.inputs.len() && (
            psbt.inputs[k].witness_utxo matches Some(utxo) && utxo.script_pubkey.len() == 34
                && utxo.script_pubkey[0] == 0x51 && utxo.script_pubkey[1] == 0x20)
                && psbt.inputs[m].witness_utxo is None ==> (signing_refusal(psbt) matches Some(words)
                && "Sighash failed: "@.is_prefix_of(words)),
        (exists|k: int|
            0 <= k < psbt.inputs.len() && (#[trigger] psbt.inputs[k]).witness_utxo is Some) && (
        forall|i: int|
            0 <= i < psbt.inputs.len() ==> !((#[trigger] psbt.inputs[i]).witness_utxo matches Some(
                utxo,
            ) && utxo.script_pubkey.len() == 34 && utxo.script_pubkey[0] == 0x51
                && utxo.script_pubkey[1] == 0x20)) ==> signing_refusal(psbt) is None,
{
    if forall|i: int|
        0 <= i < psbt.inputs.len() ==> (#[trigger] psbt.inputs[i]).witness_utxo is None {
        lemma_none_named(psbt.inputs);
    }
    if psbt.inputs.len() > 0 && forall|i: int|
        0 <= i < psbt.inputs.len() ==> (#[trigger] psbt.inputs[i]).witness_utxo is Some {
        law_every_input_counts_with_its_output(psbt.inputs);
    }
    assert forall|k: int, m: int|
        #![trigger psbt.inputs[k], psbt.inputs[m]]
        0 <= k < psbt.inputs.len() && 0 <= m < psbt.inputs.len() && (
        psbt.inputs[k].witness_utxo matches Some(utxo) && utxo.script_pubkey.len() == 34
            && utxo.script_pubkey[0] == 0x51 && utxo.script_pubkey[1] == 0x20)
            && psbt.inputs[m].witness_utxo is None implies (signing_refusal(psbt) matches Some(words)
        && "Sighash failed: "@.is_prefix_of(words)) by {
        lemma_some_named(psbt.inputs, k);
        lemma_named_at_most(psbt.inputs, m);
        lemma_positive_count(psbt.inputs, k);
        let words = signing_refusal(psbt)->0;
        let prefix = "Sighash failed: "@;
        assert(words.subrange(0, prefix.len() as int) =~= prefix);
    }
    if (exists|k: int|
        0 <= k < psbt.inputs.len() && (#[trigger] psbt.inputs[k]).witness_utxo is Some) && (
    forall|i: int|
        0 <= i < psbt.inputs.len() ==> !((#[trigger] psbt.inputs[i]).witness_utxo matches Some(utxo)
            && utxo.script_pubkey.len() == 34 && utxo.script_pubkey[0] == 0x51
            && utxo.script_pubkey[1] == 0x20)) {
        let k = choose|k: int|
            0 <= k < psbt.inputs.len() && (#[trigger] psbt.inputs[k]).witness_utxo is Some;
        lemma_some_named(psbt.inputs, k);
        assert forall|i: int| 0 <= i < psbt.inputs.len() implies !is_taproot_input(
            #[trigger] psbt.inputs[i],
        ) by {
            law_signed_scripts(psbt.inputs[i]);
        }
        lemma_no_taproot(psbt.inputs);
    }
}

/// Setting an internal key keeps one that is there, and changes nothing else.
pub proof fn law_internal_key(input: PsbtInputView, key: Seq<u8>)
    ensures
        with_internal_key(input, key).tap_internal_key == Some(
            match input.tap_internal_key {
                Some(k) => k,
                None => key,
            },
        ),
        with_internal_key(input, key).witness_utxo == input.witness_utxo,
        with_internal_key(input, key).non_witness_values == input.non_witness_values,
        with_internal_key(input, key).tap_key_sig == input.tap_key_sig,
        with_internal_key(input, key).final_script_witness == input.final_script_witness,
{
}

/// Signing one input, given its digest: the signature verifies for that digest under the
/// signing key, the internal key is the given one unless there is one, and nothing else
/// changes.
pub proof fn law_sign_one_input(
    before: PsbtInputView,
    after: PsbtInputView,
    digest: Seq<u8>,
    internal_key: Seq<u8>,
    signing_key: Seq<u8>,
)
    requires
        is_signed(before, after, digest, internal_key, signing_key),
    ensures
        after.tap_key_sig matches Some(sig) && sig.len() == 64 && schnorr_verifies(
            sig,
            digest,
            signing_key,
        ),
        after.tap_internal_key == Some(
            match before.tap_internal_key {
                Some(key) => key,
                None => internal_key,
            },
        ),
        after.witness_utxo == before.witness_utxo,
        after.non_witness_values == before.non_witness_values,
        after.final_script_witness == before.final_script_witness,
{
}

/// Making a PSBT final: where an input has a signature, that signature alone becomes its
/// witness, and the signature and the internal key are cleared; other inputs, and
/// everything else, stay as they are.
pub proof fn law_finalized(psbt: PsbtView, i: int)
    requires
        0 <= i < psbt.inputs.len(),
    ensures
        finalized(psbt).unsigned_tx == psbt.unsigned_tx,
        finalized(psbt).origin == psbt.origin,
        finalized(psbt).inputs.len() == psbt.inputs.len(),
        match psbt.inputs[i].tap_key_sig {
            Some(sig) => {
                &&& finalized(psbt).inputs[i].final_script_witness == Some(seq![sig])
                &&& finalized(psbt).inputs[i].tap_key_sig is None
                &&& finalized(psbt).inputs[i].tap_internal_key is None
                &&& finalized(psbt).inputs[i].witness_utxo == psbt.inputs[i].witness_utxo
                &&& finalized(psbt).inputs[i].non_witness_values
                    == psbt.inputs[i].non_witness_values
            },
            None => finalized(psbt).inputs[i] == psbt.inputs[i],
        },
{
}

} // verus!
