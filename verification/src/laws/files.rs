//! Laws of PSBT files: reading, signing, broadcasting and showing them.

use crate::encoding::{base64_refusal, base64_text, hex_text, lemma_base64_round_trip, lossy_text};
use crate::keys::{schnorr_verifies, tap_tweaked, xonly_public_key};
use crate::laws::numbers::law_trim;
use crate::laws::signing::{
    law_finalized, law_signed_input, law_signed_number, law_signing_refusal,
};
use crate::psbt::{
    extracted_tx, final_witnesses, funding, parsed_psbt_text, psbt_decoded, psbt_encoded, rewritten,
    Funding, PsbtInputView, PsbtView,
};
use crate::psbt_file::{
    follows_amounts, has_signature, input_summary, is_signed_input, is_written_form,
    lemma_base64_not_white, line_of, prepares, psbt_in_file, psbt_in_text,
    signs_file, Broadcast, InputSummary, SignedPsbt,
};
use crate::text::is_white_space;
use crate::tx::{total_value, transaction_decoded, unsigned_tx_encoded};
use crate::wallet::{encoded_tx_sighash, finalized, signs, WalletView};
use vstd::prelude::*;
use vstd::utf8::*;

verus! {

/// What a file that starts with the four bytes of `psbt` holds: the binary PSBT that it
/// is, or nothing.
pub proof fn law_binary_file(bytes: Seq<u8>)
    requires
        bytes.len() >= 4,
        bytes.subrange(0, 4) == seq![0x70u8, 0x73, 0x62, 0x74],
    ensures
        match psbt_decoded(bytes) {
            Ok(content) => psbt_in_file(bytes) matches Ok(psbt) && psbt.unsigned_tx
                == content.unsigned_tx && psbt.inputs == content.inputs && psbt.origin == Some(bytes),
            Err(e) => psbt_in_file(bytes) == Err::<PsbtView, Seq<char>>(
                "Failed to parse binary PSBT: "@ + e,
            ),
        },
{
    let start = bytes.subrange(0, 4);
    assert(start[0] == bytes[0] && start[1] == bytes[1] && start[2] == bytes[2] && start[3]
        == bytes[3]);
}

/// What any other file holds: what its text does.
pub proof fn law_text_file(bytes: Seq<u8>)
    requires
        bytes.len() < 4 || bytes.subrange(0, 4) != seq![0x70u8, 0x73, 0x62, 0x74],
    ensures
        psbt_in_file(bytes) == psbt_in_text(bytes),
{
    if bytes.len() >= 4 && bytes[0] == 0x70 && bytes[1] == 0x73 && bytes[2] == 0x62 && bytes[3]
        == 0x74 {
        assert(bytes.subrange(0, 4) =~= seq![0x70u8, 0x73, 0x62, 0x74]);
    }
}

/// What a text holds: the PSBT that is written in it in base64, with any white space before
/// and behind it, or nothing.
pub proof fn law_psbt_in_text(before: Seq<char>, data: Seq<u8>, after: Seq<char>)
    requires
        forall|i: int| 0 <= i < before.len() ==> is_white_space(#[trigger] before[i]),
        forall|i: int| 0 <= i < after.len() ==> is_white_space(#[trigger] after[i]),
    ensures
        match psbt_decoded(data) {
            Ok(content) => psbt_in_text(encode_utf8(before + base64_text(data) + after)) matches Ok(
                psbt,
            ) && psbt.unsigned_tx == content.unsigned_tx && psbt.inputs == content.inputs
                && psbt.origin == Some(data),
            Err(e) => psbt_in_text(encode_utf8(before + base64_text(data) + after)) == Err::<
                PsbtView,
                Seq<char>,
            >("Failed to parse PSBT: "@ + e),
        },
{
    let text = base64_text(data);
    let all = before + text + after;
    encode_utf8_valid_utf8(all);
    encode_utf8_decode_utf8(all);
    if text.len() > 0 {
        lemma_base64_not_white(data, 0);
        lemma_base64_not_white(data, text.len() - 1);
    }
    law_trim(before, text, after);
    lemma_base64_round_trip(data);
}

/// A text that is the base64 of nothing is refused for that.
pub proof fn law_not_base64(text: Seq<char>)
    requires
        forall|data: Seq<u8>| #[trigger] base64_text(data) != text,
    ensures
        parsed_psbt_text(text) == Err::<PsbtView, Seq<char>>(
            "Failed to decode base64: "@ + base64_refusal(text),
        ),
{
}

/// The text of bytes in UTF-8 is what they write.
pub proof fn law_utf8_text(text: Seq<char>)
    ensures
        lossy_text(encode_utf8(text)) == text,
{
    encode_utf8_valid_utf8(text);
    encode_utf8_decode_utf8(text);
}

/// The final witness of an input is the one that it holds, and empty where it holds none.
pub proof fn law_final_witnesses(inputs: Seq<PsbtInputView>, i: int)
    requires
        0 <= i < inputs.len(),
    ensures
        final_witnesses(inputs).len() == inputs.len(),
        match inputs[i].final_script_witness {
            Some(items) => final_witnesses(inputs)[i] == items,
            None => final_witnesses(inputs)[i].len() == 0,
        },
{
}

/// What signing a file gives: a text whose file reads as a PSBT with the same transaction,
/// in which every input that spent from a Taproot key has, as its whole witness, a
/// signature that verifies for the digest of that input; an input that spent from another
/// script and had no signature is as it was.
pub proof fn law_signed_file(
    wallet: WalletView,
    bytes: Seq<u8>,
    psbt: PsbtView,
    signed: SignedPsbt,
    i: int,
)
    requires
        signs_file(wallet, bytes, Ok(signed)),
        psbt_in_file(bytes) == Ok::<PsbtView, Seq<char>>(psbt),
        0 <= i < psbt.inputs.len(),
    ensures
        signed.signed == psbt.inputs.filter(
            |x: PsbtInputView|
                x.witness_utxo matches Some(utxo) && utxo.script_pubkey.len() == 34
                    && utxo.script_pubkey[0] == 0x51 && utxo.script_pubkey[1] == 0x20,
        ).len(),
        psbt_in_file(encode_utf8(signed.psbt_base64@)) matches Ok(read) && {
            &&& read.unsigned_tx == psbt.unsigned_tx
            &&& read.inputs.len() == psbt.inputs.len()
            &&& read.inputs[i].witness_utxo == psbt.inputs[i].witness_utxo
            &&& read.inputs[i].non_witness_values == psbt.inputs[i].non_witness_values
            &&& if (psbt.inputs[i].witness_utxo matches Some(utxo) && utxo.script_pubkey.len() == 34
                && utxo.script_pubkey[0] == 0x51 && utxo.script_pubkey[1] == 0x20) {
                let spent = psbt.inputs.filter(
                    |x: PsbtInputView| x.witness_utxo is Some,
                ).map_values(|x: PsbtInputView| x.witness_utxo->0);
                &&& read.inputs[i].tap_key_sig is None
                &&& read.inputs[i].tap_internal_key is None
                &&& read.inputs[i].final_script_witness matches Some(items)
                &&& items.len() == 1
                &&& items[0].len() == 64
                &&& encoded_tx_sighash(
                    unsigned_tx_encoded(psbt.unsigned_tx),
                    i as usize,
                    spent,
                ) matches Ok(digest)
                &&& schnorr_verifies(items[0], digest, xonly_public_key(tap_tweaked(wallet.secret)))
            } else {
                psbt.inputs[i].tap_key_sig is None ==> read.inputs[i] == psbt.inputs[i]
            }
        },
{
    let after = choose|after: PsbtView| #[trigger]
        signs(wallet, psbt, after, Ok(signed.signed)) && is_written_form(
            finalized(after),
            signed.psbt_base64@,
        );
    law_signed_number(wallet, psbt, after, signed.signed);
    law_signed_input(wallet, psbt, after, signed.signed, i);
    law_finalized(after, i);
}

/// A file that holds no PSBT is refused, by signing and by broadcasting it, with the words
/// of the reading.
pub proof fn law_bad_file(wallet: WalletView, bytes: Seq<u8>, r: Result<SignedPsbt, String>)
    requires
        psbt_in_file(bytes) is Err,
        signs_file(wallet, bytes, r),
    ensures
        r matches Err(e) && psbt_in_file(bytes) == Err::<PsbtView, Seq<char>>(e@),
{
}

/// A PSBT counts as signed if and only if some input has a signature or a final witness.
pub proof fn law_has_signature(psbt: PsbtView)
    ensures
        has_signature(psbt) <==> exists|i: int|
            0 <= i < psbt.inputs.len() && ((#[trigger] psbt.inputs[i]).tap_key_sig is Some
                || psbt.inputs[i].final_script_witness is Some),
{
    if has_signature(psbt) {
        let i = choose|i: int|
            0 <= i < psbt.inputs.len() && is_signed_input(#[trigger] psbt.inputs[i]);
        assert(psbt.inputs[i].tap_key_sig is Some || psbt.inputs[i].final_script_witness is Some);
    }
    if exists|i: int|
        0 <= i < psbt.inputs.len() && ((#[trigger] psbt.inputs[i]).tap_key_sig is Some
            || psbt.inputs[i].final_script_witness is Some) {
        let i = choose|i: int|
            0 <= i < psbt.inputs.len() && ((#[trigger] psbt.inputs[i]).tap_key_sig is Some
                || psbt.inputs[i].final_script_witness is Some);
        assert(is_signed_input(psbt.inputs[i]));
    }
}

/// What is broadcast: nothing where no input has a signature or a final witness; otherwise
/// the transaction that the extraction gives, in hexadecimal, which is that of the PSBT
/// with the final witness of each input.
pub proof fn law_broadcast(psbt: PsbtView, r: Result<Broadcast, String>)
    requires
        prepares(psbt, r),
    ensures
        (r matches Ok(Broadcast::NotSigned)) <==> forall|i: int|
            0 <= i < psbt.inputs.len() ==> (#[trigger] psbt.inputs[i]).tap_key_sig is None
                && psbt.inputs[i].final_script_witness is None,
        r matches Ok(Broadcast::Ready(hex)) ==> (extracted_tx(psbt) matches Ok(tx) && hex@
            == hex_text(tx) && (psbt.has_small_witnesses() ==> (transaction_decoded(tx) matches Ok(
            content,
        ) && content.unsigned_tx == psbt.unsigned_tx && content.witnesses.len()
            == psbt.inputs.len() && forall|i: int|
            0 <= i < psbt.inputs.len() ==> match psbt.inputs[i].final_script_witness {
                Some(items) => #[trigger] content.witnesses[i] == items,
                None => content.witnesses[i].len() == 0,
            }))),
        r matches Err(e) ==> (extracted_tx(psbt) matches Err(words) && e@
            == "Failed to extract tx: "@ + words),
{
    law_has_signature(psbt);
    if !has_signature(psbt) {
        assert forall|i: int| 0 <= i < psbt.inputs.len() implies (#[trigger]
        psbt.inputs[i]).tap_key_sig is None && psbt.inputs[i].final_script_witness is None by {}
    }
}

/// Which of the outcomes comes for a signed PSBT: the missing output where the amounts run
/// into one, and otherwise what the extraction gives.
pub proof fn law_broadcast_outcome(psbt: PsbtView, r: Result<Broadcast, String>)
    requires
        prepares(psbt, r),
        exists|i: int|
            0 <= i < psbt.inputs.len() && ((#[trigger] psbt.inputs[i]).tap_key_sig is Some
                || psbt.inputs[i].final_script_witness is Some),
    ensures
        (r matches Ok(Broadcast::MissingOutput)) <==> psbt.total_funding() is OutOfBounds,
        psbt.total_funding() !is OutOfBounds ==> (r is Ok <==> extracted_tx(psbt) is Ok),
        psbt.total_funding() !is OutOfBounds ==> (extracted_tx(psbt) is Ok
            ==> r matches Ok(Broadcast::Ready(_))),
{
    law_has_signature(psbt);
}

/// A signed PSBT of which an input does not tell its amount is refused, unless it names an
/// output that is missing; and so is one whose amounts are too large.
pub proof fn law_unknown_amounts_are_refused(psbt: PsbtView, r: Result<Broadcast, String>)
    requires
        follows_amounts(psbt, r),
        exists|i: int|
            0 <= i < psbt.inputs.len() && ((#[trigger] psbt.inputs[i]).tap_key_sig is Some
                || psbt.inputs[i].final_script_witness is Some),
        psbt.total_funding() is Missing || psbt.total_funding() is Overflow,
    ensures
        r is Err,
{
    law_has_signature(psbt);
}

/// Whether a file is signed: where every input of its PSBT names its output, and there is
/// one, it is; where none does, it is refused.
pub proof fn law_sign_file_outcome(
    wallet: WalletView,
    bytes: Seq<u8>,
    psbt: PsbtView,
    r: Result<SignedPsbt, String>,
)
    requires
        signs_file(wallet, bytes, r),
        psbt_in_file(bytes) == Ok::<PsbtView, Seq<char>>(psbt),
        psbt.unsigned_tx.inputs.len() == psbt.inputs.len(),
    ensures
        psbt.inputs.len() > 0 && (forall|i: int|
            0 <= i < psbt.inputs.len() ==> (#[trigger] psbt.inputs[i]).witness_utxo is Some)
            ==> r is Ok,
        (forall|i: int|
            0 <= i < psbt.inputs.len() ==> (#[trigger] psbt.inputs[i]).witness_utxo is None) ==> (
        r matches Err(e) && e@ == "No witness_utxo found in PSBT inputs"@),
        forall|k: int, m: int|
            #![trigger psbt.inputs[k], psbt.inputs[m]]
            0 <= k < psbt.inputs.len() && 0 <= m < psbt.inputs.len() && (
            psbt.inputs[k].witness_utxo matches Some(utxo) && utxo.script_pubkey.len() == 34
                && utxo.script_pubkey[0] == 0x51 && utxo.script_pubkey[1] == 0x20)
                && psbt.inputs[m].witness_utxo is None ==> (r matches Err(e)
                && "Sighash failed: "@.is_prefix_of(e@)),
{
    law_signing_refusal(psbt);
}

/// A PSBT that was written and read again is the same but for where it was read from.
pub proof fn law_rewritten(psbt: PsbtView)
    ensures
        rewritten(psbt).unsigned_tx == psbt.unsigned_tx,
        rewritten(psbt).inputs == psbt.inputs,
        rewritten(psbt).origin == Some(psbt_encoded(psbt)),
{
}

/// What the first inputs of a PSBT bring in, where each of them tells its amount: by the
/// output that it names, or else by the output of the transaction that it spends from.
pub proof fn law_funding(psbt: PsbtView, amounts: Seq<u64>)
    requires
        amounts.len() <= psbt.inputs.len(),
        forall|i: int|
            0 <= i < amounts.len() ==> match (#[trigger] psbt.inputs[i]).witness_utxo {
                Some(utxo) => utxo.value == amounts[i],
                None => psbt.inputs[i].non_witness_values matches Some(values)
                    && psbt.unsigned_tx.inputs[i].vout < values.len()
                    && values[psbt.unsigned_tx.inputs[i].vout as int] == amounts[i],
            },
    ensures
        ({
            let sum = amounts.fold_left(0nat, |sum: nat, a: u64| sum + a as nat);
            funding(psbt, amounts.len()) == if sum <= u64::MAX {
                Funding::Total(sum)
            } else {
                Funding::Overflow
            }
        }),
    decreases amounts.len(),
{
    if amounts.len() > 0 {
        let front = amounts.drop_last();
        assert forall|i: int| 0 <= i < front.len() implies match (#[trigger]
        psbt.inputs[i]).witness_utxo {
            Some(utxo) => utxo.value == front[i],
            None => psbt.inputs[i].non_witness_values matches Some(values)
                && psbt.unsigned_tx.inputs[i].vout < values.len()
                && values[psbt.unsigned_tx.inputs[i].vout as int] == front[i],
        } by {
            assert(front[i] == amounts[i]);
        }
        law_funding(psbt, front);
        let k = amounts.len() - 1;
        match psbt.inputs[k].witness_utxo {
            Some(utxo) => {},
            None => {},
        }
    }
}

proof fn lemma_funding_stops(psbt: PsbtView, n: nat, m: nat)
    requires
        n <= m,
        funding(psbt, n) !is Total,
    ensures
        funding(psbt, m) == funding(psbt, n),
    decreases m,
{
    if n < m {
        lemma_funding_stops(psbt, n, (m - 1) as nat);
    }
}

/// The first input that does not tell its amount decides: it is missing where the input
/// names neither an output nor a transaction, and out of bounds where it names a
/// transaction without the output; but an overflow before it comes first.
pub proof fn law_first_unknown_amount(psbt: PsbtView, amounts: Seq<u64>)
    requires
        amounts.len() < psbt.inputs.len(),
        forall|i: int|
            0 <= i < amounts.len() ==> match (#[trigger] psbt.inputs[i]).witness_utxo {
                Some(utxo) => utxo.value == amounts[i],
                None => psbt.inputs[i].non_witness_values matches Some(values)
                    && psbt.unsigned_tx.inputs[i].vout < values.len()
                    && values[psbt.unsigned_tx.inputs[i].vout as int] == amounts[i],
            },
        psbt.inputs[amounts.len() as int].witness_utxo is None,
        psbt.inputs[amounts.len() as int].non_witness_values matches Some(values)
            ==> psbt.unsigned_tx.inputs[amounts.len() as int].vout >= values.len(),
    ensures
        psbt.total_funding() == (if amounts.fold_left(0nat, |sum: nat, a: u64| sum + a as nat)
            > u64::MAX {
            Funding::Overflow
        } else if psbt.inputs[amounts.len() as int].non_witness_values is Some {
            Funding::OutOfBounds
        } else {
            Funding::Missing
        }),
{
    law_funding(psbt, amounts);
    assert(funding(psbt, amounts.len() + 1) !is Total);
    lemma_funding_stops(psbt, amounts.len() + 1, psbt.inputs.len());
}

/// How the amounts of a signed PSBT decide over its broadcast.
pub proof fn law_amounts_decide(psbt: PsbtView, amounts: Seq<u64>, r: Result<Broadcast, String>)
    requires
        follows_amounts(psbt, r),
        exists|i: int|
            0 <= i < psbt.inputs.len() && ((#[trigger] psbt.inputs[i]).tap_key_sig is Some
                || psbt.inputs[i].final_script_witness is Some),
        amounts.len() == psbt.inputs.len(),
        forall|i: int|
            0 <= i < amounts.len() ==> match (#[trigger] psbt.inputs[i]).witness_utxo {
                Some(utxo) => utxo.value == amounts[i],
                None => psbt.inputs[i].non_witness_values matches Some(values)
                    && psbt.unsigned_tx.inputs[i].vout < values.len()
                    && values[psbt.unsigned_tx.inputs[i].vout as int] == amounts[i],
            },
    ensures
        ({
            let sum = amounts.fold_left(0nat, |sum: nat, a: u64| sum + a as nat);
            let paid = total_value(psbt.unsigned_tx.outputs);
            &&& sum > u64::MAX ==> r is Err
            &&& sum < paid ==> r is Err
            &&& paid <= sum <= u64::MAX && sum - paid <= 1_025_000 * psbt.inputs.len() + 250_000
                ==> r matches Ok(Broadcast::Ready(_))
        }),
{
    law_has_signature(psbt);
    law_funding(psbt, amounts);
}

/// What is shown of an input: that it holds no output, or that it holds one, and whether it
/// has a signature.
pub proof fn law_summary(input: PsbtInputView)
    ensures
        input.witness_utxo is None ==> input_summary(input) == InputSummary::NonWitness,
        input.witness_utxo is Some ==> input_summary(input) == (InputSummary::Witness {
            signed: input.tap_key_sig is Some,
        }),
{
}

/// Line `i` of a text holds its characters from place 64 times `i` on: sixty-four of them,
/// or what is left.
pub proof fn law_lines(text: Seq<char>, i: int, k: int)
    requires
        0 <= i,
        64 * i < text.len(),
    ensures
        line_of(text, i).len() == (if text.len() - 64 * i < 64 {
            text.len() - 64 * i
        } else {
            64
        }),
        0 <= k < line_of(text, i).len() ==> line_of(text, i)[k] == text[64 * i + k],
{
}

} // verus!
