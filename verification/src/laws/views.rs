//! Laws of views: what stands for a value is made of its own parts.

use crate::api::{pair_view, Request};
use crate::keys::Xpub;
use crate::psbt::{option_view, result_view, Psbt, PsbtInput};
use crate::sweep::{OrdinalClass, OrdinalClassView, Verdict, VerdictView};
use crate::tx::{
    parsed_transaction, transaction_decoded, views, witness_views, Address, Transaction, TxIn, TxOut,
    UnsignedTx,
};
use crate::wallet::{plain_result, Wallet};
use crate::wallet_file::member_view;
use vstd::prelude::*;

verus! {

/// The views of elements are the elements' views, each at its place.
pub proof fn law_views<T: View>(s: Seq<T>, i: int)
    requires
        0 <= i < s.len(),
    ensures
        views(s).len() == s.len(),
        views(s)[i] == s[i]@,
{
}

/// The view of a result or of an option is that of what it holds.
pub proof fn law_result_views<T: View, E: View>(t: T, e: E)
    ensures
        option_view(Some(t)) == Some(t@),
        option_view(None::<T>) == None::<T::V>,
        result_view(Ok::<T, E>(t)) == Ok::<T::V, E::V>(t@),
        result_view(Err::<T, E>(e)) == Err::<T::V, E::V>(e@),
{
}

/// A result with a plain value keeps it, and the words of an error.
pub proof fn law_plain_result<T>(t: T, e: String)
    ensures
        plain_result(Ok::<T, String>(t)) == Ok::<T, Seq<char>>(t),
        plain_result(Err::<T, String>(e)) == Err::<T, Seq<char>>(e@),
{
}

/// Two texts, and a text that may be missing.
pub proof fn law_text_views(a: String, b: String)
    ensures
        pair_view(Some((a, b))) == Some((a@, b@)),
        pair_view(None) is None,
        member_view(Ok(Some(a))) == Ok::<Option<Seq<char>>, Seq<char>>(Some(a@)),
        member_view(Ok(None)) == Ok::<Option<Seq<char>>, Seq<char>>(None),
        member_view(Err(b)) == Err::<Option<Seq<char>>, Seq<char>>(b@),
{
}

/// Outputs, inputs, transactions and addresses.
pub proof fn law_transaction_views(
    output: TxOut,
    input: TxIn,
    unsigned_tx: UnsignedTx,
    tx: Transaction,
    address: Address,
)
    ensures
        output@.value == output.value,
        output@.script_pubkey == output.script_pubkey@,
        input@.txid == input.txid.bytes@,
        input@.vout == input.vout,
        input@.sequence == input.sequence,
        unsigned_tx@.version == unsigned_tx.version,
        unsigned_tx@.lock_time == unsigned_tx.lock_time,
        unsigned_tx@.inputs == views(unsigned_tx.inputs@),
        unsigned_tx@.outputs == views(unsigned_tx.outputs@),
        tx@.unsigned_tx == tx.unsigned_tx@,
        tx@.bytes == tx.bytes@,
        tx@.witnesses.len() == tx.witnesses@.len(),
        forall|i: int|
            0 <= i < tx.witnesses@.len() ==> #[trigger] tx@.witnesses[i] == views(
                tx.witnesses@[i]@,
            ),
        address@.text == address.text@,
        address@.script_pubkey == address.script_pubkey@,
{
}

/// PSBTs and their inputs.
pub proof fn law_psbt_views(input: PsbtInput, psbt: Psbt)
    ensures
        input@.witness_utxo == option_view(input.witness_utxo),
        input@.non_witness_values == option_view(input.non_witness_values),
        input@.tap_internal_key == option_view(input.tap_internal_key),
        input@.tap_key_sig == option_view(input.tap_key_sig),
        match input.final_script_witness {
            Some(items) => input@.final_script_witness == Some(views(items@)),
            None => input@.final_script_witness is None,
        },
        psbt@.unsigned_tx == psbt.unsigned_tx@,
        psbt@.inputs == views(psbt.inputs@),
        psbt@.origin == option_view(psbt.origin),
{
}

/// Wallets, extended public keys and requests.
pub proof fn law_wallet_views(wallet: Wallet, xpub: Xpub, request: Request)
    ensures
        wallet@.mnemonic == wallet.mnemonic@,
        wallet@.network == wallet.network,
        wallet@.address == wallet.address@,
        wallet@.secret == wallet.keypair@,
        wallet@.xpub == wallet.xpub@,
        xpub@.text == xpub.text@,
        xpub@.fingerprint == xpub.fingerprint@,
        xpub@.depth == xpub.depth,
        xpub@.public_key == xpub.public_key@,
        request@.post == request.post,
        request@.url == request.url@,
        request@.body == option_view(request.body),
        request@.content_type == option_view(request.content_type),
{
}

/// Verdicts and kinds.
pub proof fn law_kind_views(kind: String, description: String)
    ensures
        Verdict::BelowMinimum@ == VerdictView::BelowMinimum,
        Verdict::Inscribed@ == VerdictView::Inscribed,
        Verdict::Included@ == VerdictView::Included,
        (Verdict::Rare { kind, description })@ == (VerdictView::Rare {
            kind: kind@,
            description: description@,
        }),
        OrdinalClass::Inscribed@ == OrdinalClassView::Inscribed,
        OrdinalClass::Normal@ == OrdinalClassView::Normal,
        (OrdinalClass::Rare { kind, description })@ == (OrdinalClassView::Rare {
            kind: kind@,
            description: description@,
        }),
{
}

/// A transaction reads as what its bytes encode, and keeps them.
pub proof fn law_parsed_transaction(bytes: Seq<u8>)
    ensures
        match transaction_decoded(bytes) {
            Ok(content) => parsed_transaction(bytes) matches Ok(tx) && tx.unsigned_tx
                == content.unsigned_tx && tx.witnesses == content.witnesses && tx.bytes == bytes,
            Err(e) => parsed_transaction(bytes) matches Err(words) && words == e,
        },
{
}

/// The views of witnesses are made item by item.
pub proof fn law_witness_views(witnesses: Seq<Vec<Vec<u8>>>, i: int, k: int)
    requires
        0 <= i < witnesses.len(),
        0 <= k < witnesses[i]@.len(),
    ensures
        witness_views(witnesses).len() == witnesses.len(),
        witness_views(witnesses)[i].len() == witnesses[i]@.len(),
        witness_views(witnesses)[i][k] == witnesses[i]@[k]@,
{
}

} // verus!
