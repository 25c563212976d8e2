//! PSBT files: reading them in either form, signing them, and preparing them for
//! broadcast.

use crate::encoding::{
    base64_group, base64_text, byte_or_zero, hex_encode, hex_text, lemma_base64_round_trip,
    lossy_text, utf8_lossy,
};
use crate::psbt::{
    extract, extracted_tx, final_witnesses, funding, parse_psbt, parse_psbt_from_bytes, parsed_psbt,
    parsed_psbt_text, psbt_decoded, psbt_encoded, psbt_magic, result_view, rewritten,
    serialize_psbt, Funding, Psbt, PsbtInputView, PsbtView,
};
use crate::text::{concat, is_white_space, trim, trimmed};
use crate::tx::{encodes, total_value, TxOutView};
use crate::wallet::{
    finalized, is_taproot_input, lemma_signing_fits, lemma_some_taproot, signing_refusal, signs,
    Wallet, WalletView,
};
use vstd::prelude::*;
use vstd::utf8::*;

verus! {

/// Whether bytes start with `psbt`, as every binary PSBT does.
pub open spec fn looks_binary(bytes: Seq<u8>) -> bool {
    bytes.len() >= 4 && bytes[0] == 0x70 && bytes[1] == 0x73 && bytes[2] == 0x62 && bytes[3]
        == 0x74
}

/// The PSBT in the text of a file: in base64, with white space around it.
pub open spec fn psbt_in_text(bytes: Seq<u8>) -> Result<PsbtView, Seq<char>> {
    parsed_psbt_text(trimmed(lossy_text(bytes)))
}

/// The PSBT in a file, in binary or as text.
pub open spec fn psbt_in_file(bytes: Seq<u8>) -> Result<PsbtView, Seq<char>> {
    if looks_binary(bytes) {
        parsed_psbt("Failed to parse binary PSBT: "@, bytes, psbt_decoded(bytes))
    } else {
        psbt_in_text(bytes)
    }
}

/// Reads the PSBT in the text of a file.
pub fn load_psbt_text(bytes: &[u8]) -> (r: Result<Psbt, String>)
    ensures
        result_view(r) == psbt_in_text(bytes@),
        r matches Ok(psbt) ==> psbt@.wf() && psbt@.fits(),
{
    let text = utf8_lossy(bytes);
    parse_psbt(trim(text.as_str()))
}

/// Reads the PSBT in a file.
pub fn load_psbt(bytes: &[u8]) -> (r: Result<Psbt, String>)
    ensures
        result_view(r) == psbt_in_file(bytes@),
        r matches Ok(psbt) ==> psbt@.wf() && psbt@.fits(),
{
    if bytes.len() >= 4 && bytes[0] == 0x70 && bytes[1] == 0x73 && bytes[2] == 0x62 && bytes[3]
        == 0x74 {
        parse_psbt_from_bytes(bytes)
    } else {
        load_psbt_text(bytes)
    }
}

/// The characters of base64 are not white space.
pub proof fn lemma_base64_not_white(data: Seq<u8>, k: int)
    requires
        0 <= k < base64_text(data).len(),
    ensures
        !is_white_space(base64_text(data)[k]),
{
    let w = base64_group(data, k / 4);
    assert(w < 16777216);
    assert(w / 262144 < 64);
}

/// A text without white space at its ends stays as it is.
proof fn lemma_trimmed_unchanged(s: Seq<char>)
    requires
        s.len() > 0 ==> !is_white_space(s[0]) && !is_white_space(s.last()),
    ensures
        trimmed(s) == s,
{
}

/// A file that holds a binary PSBT, and one that holds it as text, read as that PSBT.
pub proof fn lemma_psbt_file_forms(bytes: Seq<u8>)
    requires
        psbt_magic().is_prefix_of(bytes),
    ensures
        psbt_in_file(bytes) == parsed_psbt(
            "Failed to parse binary PSBT: "@,
            bytes,
            psbt_decoded(bytes),
        ),
        psbt_in_file(encode_utf8(base64_text(bytes))) == parsed_psbt(
            "Failed to parse PSBT: "@,
            bytes,
            psbt_decoded(bytes),
        ),
{
    let magic = psbt_magic();
    assert(bytes.subrange(0, 5) =~= magic);
    assert(bytes[0] == magic[0] && bytes[1] == magic[1] && bytes[2] == magic[2] && bytes[3]
        == magic[3]);
    let text = base64_text(bytes);
    let file = encode_utf8(text);
    assert(text.len() > 0);
    assert(text[0] == 'c') by {
        let w = base64_group(bytes, 0);
        assert(byte_or_zero(bytes, 0) == 0x70);
        assert(w / 262144 == 28);
    }
    assert(file[0] != 0x70) by {
        assert(encode_scalar('c' as u32)[0] == 0x63) by {
            assert((0x63u32 & 0x7F) as u8 == 0x63) by (bit_vector);
        }
    }
    encode_utf8_valid_utf8(text);
    encode_utf8_decode_utf8(text);
    lemma_base64_not_white(bytes, 0);
    lemma_base64_not_white(bytes, text.len() - 1);
    lemma_trimmed_unchanged(text);
    lemma_base64_round_trip(bytes);
}

/// A PSBT that a wallet has signed.
#[derive(Clone, Debug)]
pub struct SignedPsbt {
    /// The number of inputs that were signed.
    pub signed: usize,
    /// The PSBT in base64.
    pub psbt_base64: String,
}

/// Whether a text is what signing a PSBT and making it final gives; what was written
/// reads as the PSBT that was made final, from a file too.
pub open spec fn is_signed_form(wallet: WalletView, psbt: PsbtView, r: SignedPsbt) -> bool {
    exists|after: PsbtView| #[trigger]
        signs(wallet, psbt, after, Ok(r.signed)) && is_written_form(
            finalized(after),
            r.psbt_base64@,
        )
}

/// Whether a text is the base64 form of a PSBT, and a file with it reads as the PSBT.
pub open spec fn is_written_form(psbt: PsbtView, text: Seq<char>) -> bool {
    let bytes = psbt_encoded(psbt);
    &&& text == base64_text(bytes)
    &&& psbt_in_file(encode_utf8(text)) == Ok::<
        PsbtView,
        Seq<char>,
    >(rewritten(psbt))
}

/// What signing a PSBT file gives.
pub open spec fn signs_file(
    wallet: WalletView,
    bytes: Seq<u8>,
    r: Result<SignedPsbt, String>,
) -> bool {
    match psbt_in_file(bytes) {
        Err(e) => r matches Err(words) && words@ == e,
        Ok(psbt) => match r {
            Err(words) => signing_refusal(psbt) == Some(words@),
            Ok(signed) => signing_refusal(psbt) is None && is_signed_form(wallet, psbt, signed),
        },
    }
}

/// Signs the PSBT in a file and makes it final.
pub fn sign_psbt_file(wallet: &Wallet, bytes: &[u8]) -> (r: Result<SignedPsbt, String>)
    ensures
        signs_file(wallet@, bytes@, r),
{
    match load_psbt(bytes) {
        Err(e) => Err(e),
        Ok(loaded) => {
            let mut psbt = loaded;
            let ghost before = psbt@;
            match wallet.sign_psbt(&mut psbt) {
                Err(e) => Err(e),
                Ok(signed) => {
                    let ghost after = psbt@;
                    let _ = wallet.finalize_psbt(&mut psbt);
                    let ghost made = psbt@;
                    match serialize_psbt(&psbt) {
                        Err(e) => Err(e),
                        Ok(psbt_base64) => {
                            proof {
                                lemma_signing_fits(wallet@, before, after, signed);
                                lemma_psbt_file_forms(psbt_encoded(made));
                            }
                            let r = SignedPsbt { signed, psbt_base64 };
                            assert(signs(wallet@, before, after, Ok(r.signed)));
                            assert(is_written_form(finalized(after), r.psbt_base64@));
                            assert(is_signed_form(wallet@, before, r));
                            Ok(r)
                        },
                    }
                },
            }
        },
    }
}

/// Whether an input is signed, in one form or the other.
pub open spec fn is_signed_input(input: PsbtInputView) -> bool {
    input.tap_key_sig is Some || input.final_script_witness is Some
}

/// Whether any input of a PSBT is signed.
pub open spec fn has_signature(psbt: PsbtView) -> bool {
    exists|i: int| 0 <= i < psbt.inputs.len() && is_signed_input(#[trigger] psbt.inputs[i])
}

fn any_signature(psbt: &Psbt) -> (any: bool)
    ensures
        any == has_signature(psbt@),
{
    let mut i: usize = 0;
    while i < psbt.inputs.len()
        invariant
            i <= psbt.inputs@.len(),
            forall|j: int| 0 <= j < i ==> !is_signed_input(#[trigger] psbt@.inputs[j]),
        decreases psbt.inputs.len() - i,
    {
        assert(psbt@.inputs[i as int] == psbt.inputs@[i as int]@);
        if psbt.inputs[i].tap_key_sig.is_some() || psbt.inputs[i].final_script_witness.is_some() {
            assert(is_signed_input(psbt@.inputs[i as int]));
            return true;
        }
        i = i + 1;
    }
    false
}

/// The first input without a usable amount decides.
proof fn lemma_funding_stays(psbt: PsbtView, n: nat, m: nat)
    requires
        n <= m,
        funding(psbt, n) !is Total,
    ensures
        funding(psbt, m) == funding(psbt, n),
    decreases m,
{
    if n < m {
        lemma_funding_stays(psbt, n, (m - 1) as nat);
    }
}

fn names_missing_output(psbt: &Psbt) -> (missing: bool)
    requires
        psbt@.wf(),
    ensures
        missing == (psbt@.total_funding() is OutOfBounds),
{
    let mut total: u64 = 0;
    let mut i: usize = 0;
    while i < psbt.inputs.len()
        invariant
            psbt@.wf(),
            i <= psbt.inputs@.len(),
            funding(psbt@, i as nat) == Funding::Total(total as nat),
        decreases psbt.inputs.len() - i,
    {
        proof {
            assert(psbt@.inputs[i as int] == psbt.inputs@[i as int]@);
            assert(psbt@.unsigned_tx.inputs[i as int] == psbt.unsigned_tx.inputs@[i as int]@);
            if funding(psbt@, (i + 1) as nat) !is Total {
                lemma_funding_stays(psbt@, (i + 1) as nat, psbt@.inputs.len());
            }
        }
        let input = &psbt.inputs[i];
        let value: u64 = match &input.witness_utxo {
            Some(utxo) => utxo.value,
            None => match &input.non_witness_values {
                Some(values) => {
                    let vout: u32 = psbt.unsigned_tx.inputs[i].vout;
                    if vout as u64 >= values.len() as u64 {
                        return true;
                    }
                    values[vout as usize]
                },
                None => {
                    return false;
                },
            },
        };
        match total.checked_add(value) {
            Some(sum) => {
                total = sum;
            },
            None => {
                return false;
            },
        }
        i = i + 1;
    }
    false
}

/// What becomes of a PSBT that is to be broadcast.
#[derive(Clone, Debug)]
pub enum Broadcast {
    /// No input is signed.
    NotSigned,
    /// An input names an output that the transaction which it spends from lacks.
    MissingOutput,
    /// The transaction in hexadecimal.
    Ready(String),
}

/// What preparing a PSBT for broadcast gives: its transaction with the final witnesses
/// of its inputs, as the decoder of transactions finds it where its limits are kept.
pub open spec fn prepares(psbt: PsbtView, r: Result<Broadcast, String>) -> bool {
    if !has_signature(psbt) {
        r matches Ok(Broadcast::NotSigned)
    } else if psbt.total_funding() is OutOfBounds {
        r matches Ok(Broadcast::MissingOutput)
    } else {
        match extracted_tx(psbt) {
            Ok(tx) => {
                &&& r matches Ok(Broadcast::Ready(hex))
                &&& hex@ == hex_text(tx)
                &&& psbt.has_small_witnesses() ==> encodes(
                    tx,
                    psbt.unsigned_tx,
                    final_witnesses(psbt.inputs),
                )
            },
            Err(e) => r matches Err(words) && words@ == "Failed to extract tx: "@ + e,
        }
    }
}

/// How the amounts of a signed PSBT decide: it is ready where its inputs bring in what
/// its outputs pay and a reasonable fee, and it is refused where they bring in less, or
/// where what they bring in is not known or does not fit in sixty-four bits.
pub open spec fn follows_amounts(psbt: PsbtView, r: Result<Broadcast, String>) -> bool {
    has_signature(psbt) ==> match psbt.total_funding() {
        Funding::Total(total) => {
            &&& total < total_value(psbt.unsigned_tx.outputs) ==> r is Err
            &&& has_reasonable_fee(psbt, total) ==> r matches Ok(Broadcast::Ready(_))
        },
        Funding::OutOfBounds => true,
        Funding::Missing | Funding::Overflow => r is Err,
    }
}

/// Whether a total covers the outputs of a PSBT and a fee of at most 6250 satoshis for
/// each unit of the least weight that a transaction with its inputs can have.
pub open spec fn has_reasonable_fee(psbt: PsbtView, total: nat) -> bool {
    total_value(psbt.unsigned_tx.outputs) <= total <= total_value(psbt.unsigned_tx.outputs) + 6250
        * (164 * psbt.inputs.len() + 40)
}

/// Prepares a PSBT for broadcast. A PSBT whose inputs bring in what its outputs pay and
/// a reasonable fee is not refused, and one whose inputs bring in less is.
pub fn prepare_broadcast(psbt: &Psbt) -> (r: Result<Broadcast, String>)
    requires
        psbt@.wf(),
    ensures
        prepares(psbt@, r),
        follows_amounts(psbt@, r),
{
    if !any_signature(psbt) {
        return Ok(Broadcast::NotSigned);
    }
    if names_missing_output(psbt) {
        return Ok(Broadcast::MissingOutput);
    }
    match extract(psbt) {
        Ok(bytes) => Ok(Broadcast::Ready(hex_encode(bytes.as_slice()))),
        Err(e) => Err(concat("Failed to extract tx: ", e.as_str())),
    }
}

/// Prepares the PSBT in a file for broadcast, as `prepare_broadcast` does.
pub fn broadcast_psbt_file(bytes: &[u8]) -> (r: Result<Broadcast, String>)
    ensures
        match psbt_in_file(bytes@) {
            Err(e) => r matches Err(words) && words@ == e,
            Ok(psbt) => prepares(psbt, r) && follows_amounts(psbt, r),
        },
{
    match load_psbt(bytes) {
        Err(e) => Err(e),
        Ok(psbt) => prepare_broadcast(&psbt),
    }
}

/// A PSBT of which at least one input was signed, and which was made final, counts as
/// signed.
pub proof fn lemma_signed_can_be_broadcast(
    wallet: WalletView,
    before: PsbtView,
    after: PsbtView,
    count: usize,
)
    requires
        signs(wallet, before, after, Ok(count)),
        count > 0,
    ensures
        has_signature(after),
        has_signature(finalized(after)),
{
    lemma_some_taproot(before.inputs);
    let k = choose|k: int|
        0 <= k < before.inputs.len() && is_taproot_input(#[trigger] before.inputs[k]);
    assert(is_signed_input(after.inputs[k]));
    assert(is_signed_input(finalized(after).inputs[k]));
}

/// What the inputs bring in rests on the outputs that they name alone.
proof fn lemma_same_funding(a: PsbtView, b: PsbtView, n: nat)
    requires
        n <= a.inputs.len(),
        a.unsigned_tx == b.unsigned_tx,
        a.inputs.len() == b.inputs.len(),
        forall|i: int|
            0 <= i < a.inputs.len() ==> (#[trigger] b.inputs[i]).witness_utxo
                == a.inputs[i].witness_utxo && b.inputs[i].non_witness_values
                == a.inputs[i].non_witness_values,
    ensures
        funding(b, n) == funding(a, n),
    decreases n,
{
    if n > 0 {
        lemma_same_funding(a, b, (n - 1) as nat);
        assert(b.inputs[n - 1].witness_utxo == a.inputs[n - 1].witness_utxo);
    }
}

/// A file that the wallet has signed can be broadcast: where at least one input was
/// signed, and the inputs of the PSBT bring in what its outputs pay and a reasonable fee,
/// the file with the signed PSBT is ready.
pub proof fn lemma_signed_file_is_ready(
    wallet: WalletView,
    psbt: PsbtView,
    signed: SignedPsbt,
    total: nat,
    r: Result<Broadcast, String>,
)
    requires
        is_signed_form(wallet, psbt, signed),
        signed.signed > 0,
        psbt.total_funding() == Funding::Total(total),
        has_reasonable_fee(psbt, total),
        psbt_in_file(encode_utf8(signed.psbt_base64@)) matches Ok(read) && follows_amounts(read, r),
    ensures
        r matches Ok(Broadcast::Ready(_)),
{
    let after = choose|after: PsbtView| #[trigger]
        signs(wallet, psbt, after, Ok(signed.signed)) && is_written_form(
            finalized(after),
            signed.psbt_base64@,
        );
    let read = rewritten(finalized(after));
    lemma_signed_can_be_broadcast(wallet, psbt, after, signed.signed);
    let k = choose|k: int|
        0 <= k < finalized(after).inputs.len() && is_signed_input(
            #[trigger] finalized(after).inputs[k],
        );
    assert(is_signed_input(read.inputs[k]));
    assert forall|i: int| 0 <= i < psbt.inputs.len() implies (#[trigger]
    read.inputs[i]).witness_utxo == psbt.inputs[i].witness_utxo && read.inputs[i].non_witness_values
        == psbt.inputs[i].non_witness_values by {
        let _ = after.inputs[i];
    }
    lemma_same_funding(psbt, read, psbt.inputs.len());
}

/// What is shown of an input of a PSBT.
#[derive(Clone, Copy, Debug, PartialEq, Eq, Structural)]
pub enum InputSummary {
    /// The input does not hold the output that it spends.
    NonWitness,
    /// The input holds the output that it spends, and a key-path signature or not.
    Witness { signed: bool },
}

/// What is shown of an input of a PSBT.
pub open spec fn input_summary(input: PsbtInputView) -> InputSummary {
    if input.witness_utxo is Some {
        InputSummary::Witness { signed: input.tap_key_sig is Some }
    } else {
        InputSummary::NonWitness
    }
}

/// What is shown of a PSBT: its inputs and the amounts of its outputs.
#[derive(Clone, Debug)]
pub struct PsbtSummary {
    pub inputs: Vec<InputSummary>,
    pub outputs: Vec<u64>,
}

/// Sums up a PSBT.
pub fn summarize_psbt(psbt: &Psbt) -> (summary: PsbtSummary)
    ensures
        summary.inputs@ == psbt@.inputs.map_values(|i: PsbtInputView| input_summary(i)),
        summary.outputs@ == psbt@.unsigned_tx.outputs.map_values(|o: TxOutView| o.value),
{
    let mut inputs: Vec<InputSummary> = Vec::new();
    let mut i: usize = 0;
    while i < psbt.inputs.len()
        invariant
            i <= psbt.inputs@.len(),
            inputs@.len() == i,
            forall|j: int|
                0 <= j < i ==> #[trigger] inputs@[j] == input_summary(psbt@.inputs[j]),
        decreases psbt.inputs.len() - i,
    {
        assert(psbt@.inputs[i as int] == psbt.inputs@[i as int]@);
        let input = &psbt.inputs[i];
        inputs.push(
            if input.witness_utxo.is_some() {
                InputSummary::Witness { signed: input.tap_key_sig.is_some() }
            } else {
                InputSummary::NonWitness
            },
        );
        i = i + 1;
    }
    let mut outputs: Vec<u64> = Vec::new();
    let mut k: usize = 0;
    while k < psbt.unsigned_tx.outputs.len()
        invariant
            k <= psbt.unsigned_tx.outputs@.len(),
            outputs@.len() == k,
            forall|j: int|
                0 <= j < k ==> #[trigger] outputs@[j] == psbt@.unsigned_tx.outputs[j].value,
        decreases psbt.unsigned_tx.outputs.len() - k,
    {
        assert(psbt@.unsigned_tx.outputs[k as int] == psbt.unsigned_tx.outputs@[k as int]@);
        outputs.push(psbt.unsigned_tx.outputs[k].value);
        k = k + 1;
    }
    assert(inputs@ =~= psbt@.inputs.map_values(|i: PsbtInputView| input_summary(i)));
    assert(outputs@ =~= psbt@.unsigned_tx.outputs.map_values(|o: TxOutView| o.value));
    PsbtSummary { inputs, outputs }
}

/// The number of characters in a line of base64 that is shown.
pub const LINE_LENGTH: usize = 64;

/// Splits a text into lines: all but the last have `LINE_LENGTH` characters, and
/// together they are the text.
pub fn split_lines(text: &str) -> (lines: Vec<String>)
    ensures
        lines@.len() == (text@.len() + LINE_LENGTH - 1) / LINE_LENGTH as int,
        forall|i: int|
            0 <= i < lines@.len() ==> (#[trigger] lines@[i])@ == line_of(text@, i),
{
    let n: usize = text.unicode_len();
    let mut lines: Vec<String> = Vec::new();
    let mut from: usize = 0;
    while from < n
        invariant
            n == text@.len(),
            from == LINE_LENGTH * lines@.len() || from == n,
            from <= n,
            LINE_LENGTH * lines@.len() < from + LINE_LENGTH,
            from <= LINE_LENGTH * lines@.len(),
            forall|i: int|
                0 <= i < lines@.len() ==> (#[trigger] lines@[i])@ == line_of(text@, i),
        decreases n - from,
    {
        let to: usize = if n - from < LINE_LENGTH {
            n
        } else {
            from + LINE_LENGTH
        };
        lines.push(text.substring_char(from, to).to_owned());
        from = to;
    }
    lines
}

/// Line `i` of a text.
pub open spec fn line_of(text: Seq<char>, i: int) -> Seq<char> {
    text.subrange(
        LINE_LENGTH * i,
        if LINE_LENGTH * (i + 1) < text.len() {
            LINE_LENGTH * (i + 1)
        } else {
            text.len() as int
        },
    )
}

} // verus!
