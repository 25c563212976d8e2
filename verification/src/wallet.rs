//! The wallet: its keys and address, and what it does with partially signed
//! transactions.

use crate::encoding::{hex_encode, hex_text};
use crate::keys::{
    compressed_public_key, is_mnemonic, is_p2tr, is_wallet_key, master_key, mnemonic_parsed, mnemonic_seed, p2tr_address,
    p2tr_output_key, reads_as_xpub, schnorr_verifies, tap_tweaked, wallet_key, word_count, xonly_public_key,
    xpriv_secret, xpub_of, Keypair, Mnemonic, Xpriv, Xpub, XpubView,
};
use crate::network::Network;
use crate::psbt::{
    extract, extracted_tx, final_witnesses, is_xonly_key, result_view, witness_size, Funding, Psbt,
    PsbtInput, PsbtInputView, PsbtView,
};
use crate::text::concat;
use crate::tx::{
    encodes, lemma_views_update, total_value, transaction_decoded, unsigned_tx_encoded, views,
    witness_views, Address, AddressView, Transaction, TransactionView, TxOut, TxOutView,
    UnsignedTxView,
};
use bitcoin::consensus::deserialize;
use bitcoin::sighash::{Prevouts, SighashCache, TapSighashType};
use bitcoin::Amount;
use vstd::prelude::*;

verus! {

/// What a wallet holds.
pub struct WalletView {
    pub mnemonic: Seq<char>,
    pub network: Network,
    pub address: AddressView,
    pub secret: Seq<u8>,
    pub xpub: XpubView,
}

/// A wallet with one key and its Taproot address.
#[derive(Debug)]
pub struct Wallet {
    pub mnemonic: Mnemonic,
    pub network: Network,
    pub address: Address,
    pub keypair: Keypair,
    pub xpub: Xpub,
}

impl View for Wallet {
    type V = WalletView;

    open spec fn view(&self) -> WalletView {
        WalletView {
            mnemonic: self.mnemonic@,
            network: self.network,
            address: self.address@,
            secret: self.keypair@,
            xpub: self.xpub@,
        }
    }
}

impl WalletView {
    /// The x-only public key, from which the address is made.
    pub open spec fn internal_key(self) -> Seq<u8> {
        xonly_public_key(self.secret)
    }

    /// The x-only public key under which the wallet's signatures verify.
    pub open spec fn signing_key(self) -> Seq<u8> {
        xonly_public_key(tap_tweaked(self.secret))
    }

    /// Whether the address is the one of the key.
    pub open spec fn wf(self) -> bool {
        self.address == p2tr_address(self.internal_key(), self.network)
    }

    /// The descriptor: the fingerprint and the coin type in brackets, the extended public
    /// key, and the path of the addresses below it.
    pub open spec fn descriptor(self) -> Seq<char> {
        "tr(["@ + self.xpub.fingerprint + self.network.coin_type_text() + "]"@ + self.xpub.text
            + "/0/0/*)"@
    }

    /// Whether the extended public key is that of the key itself: five derivations away
    /// from the master, with the public key of the secret key and a fingerprint of eight
    /// digits, and given by a text that reads back.
    pub open spec fn has_own_xpub(self) -> bool {
        &&& self.xpub.depth == 5
        &&& self.xpub.fingerprint.len() == 8
        &&& self.xpub.public_key == compressed_public_key(self.secret)
        &&& reads_as_xpub(self.xpub.text, self.xpub)
    }
}

/// The wallet of a mnemonic whose derived key is given.
pub open spec fn wallet_of_key(
    mnemonic: Seq<char>,
    network: Network,
    xpriv: Seq<u8>,
) -> WalletView {
    WalletView {
        mnemonic,
        network,
        address: p2tr_address(xonly_public_key(xpriv_secret(xpriv)), network),
        secret: xpriv_secret(xpriv),
        xpub: xpub_of(xpriv),
    }
}

/// The wallet of a mnemonic on a network.
pub open spec fn wallet_of(mnemonic: Seq<char>, network: Network) -> Result<
    WalletView,
    Seq<char>,
> {
    match wallet_key(network, mnemonic_seed(mnemonic, ""@)) {
        Ok(key) => Ok(wallet_of_key(mnemonic, network, key)),
        Err(e) => Err(e),
    }
}

/// Whether a wallet holds a mnemonic and a network, and the key pair of the child of the
/// mnemonic's master key along the BIP86 path of the network.
pub open spec fn is_wallet_of(wallet: WalletView, mnemonic: Seq<char>, network: Network) -> bool {
    &&& wallet.mnemonic == mnemonic
    &&& wallet.network == network
    &&& exists|key: Seq<u8>| #[trigger]
        is_wallet_key(network, mnemonic_seed(mnemonic, ""@), key) && wallet.secret
            == xpriv_secret(key)
}

/// The wallets of a mnemonic on Testnet, Signet and Regtest share their key pair and
/// their extended public key; where there is none on one of them, there is none on the
/// others.
pub proof fn lemma_test_networks_share_key(mnemonic: Seq<char>, a: Network, b: Network)
    requires
        a.has_test_coin_type(),
        b.has_test_coin_type(),
    ensures
        wallet_of(mnemonic, a) is Ok <==> wallet_of(mnemonic, b) is Ok,
        wallet_of(mnemonic, a) matches Ok(v) ==> (wallet_of(mnemonic, b) matches Ok(w) && v.secret
            == w.secret && v.xpub == w.xpub),
{
}

/// The digest that `SighashCache::taproot_key_spend_signature_hash` computes for an
/// input of a transaction in its consensus encoding, over all inputs and outputs, or the
/// words with which it refuses.
pub uninterp spec fn encoded_tx_sighash(
    tx: Seq<u8>,
    index: usize,
    prevouts: Seq<TxOutView>,
) -> Result<Seq<u8>, Seq<char>>;

/// The digest that is signed for an input, or the words of the refusal.
pub open spec fn taproot_sighash(
    tx: UnsignedTxView,
    index: usize,
    prevouts: Seq<TxOutView>,
) -> Result<Seq<u8>, Seq<char>> {
    encoded_tx_sighash(unsigned_tx_encoded(tx), index, prevouts)
}

/// Whether there are as many outputs as the transaction in some bytes has inputs.
pub open spec fn covers_inputs(tx: Seq<u8>, prevouts: Seq<TxOutView>) -> bool {
    transaction_decoded(tx) matches Ok(content) && prevouts.len()
        == content.unsigned_tx.inputs.len()
}

/// `SighashCache::taproot_key_spend_signature_hash` with the default sighash type and
/// all outputs that are spent: a digest of thirty-two bytes, and a refusal if and only
/// if there are not as many outputs as the transaction has inputs.
#[verifier::external_body]
fn key_spend_sighash(tx: &[u8], index: usize, prevouts: &Vec<TxOut>) -> (r: Result<
    Vec<u8>,
    String,
>)
    requires
        transaction_decoded(tx@) is Ok,
    ensures
        result_view(r) == encoded_tx_sighash(tx@, index, views(prevouts@)),
        r is Ok <==> covers_inputs(tx@, views(prevouts@)),
        r matches Ok(digest) ==> digest@.len() == 32,
{
    let tx = deserialize::<bitcoin::Transaction>(tx).unwrap();
    let prevouts: Vec<bitcoin::TxOut> = prevouts.iter().map(|o| bitcoin::TxOut { value: Amount::from_sat(o.value), script_pubkey: o.script_pubkey.clone().into() }).collect();
    let hash = SighashCache::new(&tx).taproot_key_spend_signature_hash(index, &Prevouts::All(&prevouts), TapSighashType::Default);
    hash.map(|h| bitcoin_hashes::Hash::to_byte_array(h).to_vec()).map_err(|e| e.to_string())
}

/// The outputs that inputs say they spend, in order.
pub open spec fn prevouts(inputs: Seq<PsbtInputView>) -> Seq<TxOutView>
    decreases inputs.len(),
{
    if inputs.len() == 0 {
        Seq::empty()
    } else {
        match inputs.last().witness_utxo {
            Some(utxo) => prevouts(inputs.drop_last()).push(utxo),
            None => prevouts(inputs.drop_last()),
        }
    }
}

/// Whether an input spends an output that pays to a Taproot key.
pub open spec fn is_taproot_input(input: PsbtInputView) -> bool {
    input.witness_utxo matches Some(utxo) && is_p2tr(utxo.script_pubkey)
}

/// The number of inputs that spend an output that pays to a Taproot key.
pub open spec fn taproot_count(inputs: Seq<PsbtInputView>) -> nat
    decreases inputs.len(),
{
    if inputs.len() == 0 {
        0
    } else {
        taproot_count(inputs.drop_last()) + if is_taproot_input(inputs.last()) {
            1nat
        } else {
            0
        }
    }
}

/// The count over a prefix is at most that over the whole; where the count is zero no
/// input spends from a Taproot key, and otherwise one does.
proof fn lemma_taproot_count(inputs: Seq<PsbtInputView>, n: int)
    requires
        0 <= n <= inputs.len(),
    ensures
        taproot_count(inputs.take(n)) <= taproot_count(inputs),
        taproot_count(inputs) == 0 ==> forall|i: int|
            0 <= i < inputs.len() ==> !is_taproot_input(#[trigger] inputs[i]),
    decreases inputs.len(),
{
    if inputs.len() > 0 {
        let front = inputs.drop_last();
        if n < inputs.len() {
            lemma_taproot_count(front, n);
            assert(front.take(n) =~= inputs.take(n));
        } else {
            lemma_taproot_count(front, n - 1);
            assert(inputs.take(n) =~= inputs);
        }
        if taproot_count(inputs) == 0 {
            assert forall|i: int| 0 <= i < inputs.len() implies !is_taproot_input(
                #[trigger] inputs[i],
            ) by {
                if i < front.len() {
                    assert(inputs[i] == front[i]);
                }
            }
        }
    } else {
        assert(inputs.take(n) =~= inputs);
    }
}

/// Where the count is not zero, some input spends from a Taproot key.
pub proof fn lemma_some_taproot(inputs: Seq<PsbtInputView>)
    requires
        taproot_count(inputs) > 0,
    ensures
        exists|i: int| 0 <= i < inputs.len() && is_taproot_input(#[trigger] inputs[i]),
    decreases inputs.len(),
{
    let front = inputs.drop_last();
    if is_taproot_input(inputs.last()) {
        assert(is_taproot_input(inputs[inputs.len() - 1]));
    } else {
        lemma_some_taproot(front);
        let i = choose|i: int| 0 <= i < front.len() && is_taproot_input(#[trigger] front[i]);
        assert(is_taproot_input(inputs[i]));
    }
}

/// The input with the wallet's key as its internal key, unless it has one.
pub open spec fn with_internal_key(input: PsbtInputView, key: Seq<u8>) -> PsbtInputView {
    PsbtInputView {
        tap_internal_key: match input.tap_internal_key {
            Some(k) => Some(k),
            None => Some(key),
        },
        ..input
    }
}

/// Whether `after` is `before` with an internal key and with a signature of the digest
/// that verifies under the signing key.
pub open spec fn is_signed(
    before: PsbtInputView,
    after: PsbtInputView,
    digest: Seq<u8>,
    internal_key: Seq<u8>,
    signing_key: Seq<u8>,
) -> bool {
    &&& after.tap_key_sig matches Some(sig)
    &&& sig.len() == 64
    &&& schnorr_verifies(sig, digest, signing_key)
    &&& after == (PsbtInputView {
        tap_key_sig: Some(sig),
        ..with_internal_key(before, internal_key)
    })
}

/// Whether input `i` of `after` is what signing makes of that of `before`: inputs that
/// spend from a Taproot key are signed, the others stay as they are.
pub open spec fn input_signed(wallet: WalletView, before: PsbtView, after: PsbtView, i: int) -> bool {
    if is_taproot_input(before.inputs[i]) {
        taproot_sighash(before.unsigned_tx, i as usize, prevouts(before.inputs)) matches Ok(digest)
            && is_signed(
            before.inputs[i],
            after.inputs[i],
            digest,
            wallet.internal_key(),
            wallet.signing_key(),
        )
    } else {
        after.inputs[i] == before.inputs[i]
    }
}

/// Whether input `k` is the first that spends an output that pays to a Taproot key.
pub open spec fn is_first_taproot(inputs: Seq<PsbtInputView>, k: int) -> bool {
    &&& 0 <= k < inputs.len()
    &&& is_taproot_input(inputs[k])
    &&& forall|i: int| 0 <= i < k ==> !is_taproot_input(#[trigger] inputs[i])
}

/// The first input that spends an output that pays to a Taproot key.
pub open spec fn first_taproot(inputs: Seq<PsbtInputView>) -> int {
    choose|k: int| is_first_taproot(inputs, k)
}

/// Whether some inputs that spend from a Taproot key cannot be signed, since not all
/// inputs name the outputs that they spend.
pub open spec fn lacks_prevouts(psbt: PsbtView) -> bool {
    prevouts(psbt.inputs).len() != psbt.unsigned_tx.inputs.len() && taproot_count(psbt.inputs) > 0
}

/// The words with which the signing of a PSBT is refused, if it is.
pub open spec fn signing_refusal(psbt: PsbtView) -> Option<Seq<char>> {
    let known = prevouts(psbt.inputs);
    let sighash = taproot_sighash(
        psbt.unsigned_tx,
        first_taproot(psbt.inputs) as usize,
        known,
    );
    if known.len() == 0 {
        Some("No witness_utxo found in PSBT inputs"@)
    } else if lacks_prevouts(psbt) {
        Some("Sighash failed: "@ + sighash->Err_0)
    } else {
        None
    }
}

/// What signing a PSBT gives and leaves.
/// - Without a spent output in any input it is refused, and nothing changes.
/// - With spent outputs in some inputs only, the first input that would be signed is
///   refused; nothing but its internal key is set.
/// - Otherwise every input that spends from a Taproot key is signed and counted.
pub open spec fn signs(
    wallet: WalletView,
    before: PsbtView,
    after: PsbtView,
    r: Result<usize, Seq<char>>,
) -> bool {
    let k = first_taproot(before.inputs);
    &&& after.unsigned_tx == before.unsigned_tx
    &&& after.origin == before.origin
    &&& after.inputs.len() == before.inputs.len()
    &&& match signing_refusal(before) {
        Some(words) => {
            &&& r matches Err(e)
            &&& e == words
            &&& after.inputs == if prevouts(before.inputs).len() == 0 {
                before.inputs
            } else {
                before.inputs.update(
                    k,
                    with_internal_key(before.inputs[k], wallet.internal_key()),
                )
            }
        },
        None => {
            &&& r matches Ok(count)
            &&& count == taproot_count(before.inputs)
            &&& forall|i: int|
                #![trigger after.inputs[i]]
                0 <= i < before.inputs.len() ==> input_signed(wallet, before, after, i)
        },
    }
}

/// The result of an operation with a plain value.
pub open spec fn plain_result<T>(r: Result<T, String>) -> Result<T, Seq<char>> {
    match r {
        Ok(t) => Ok(t),
        Err(e) => Err(e@),
    }
}

/// The input with its key-path signature made its final witness, the fields that
/// served the signing cleared.
pub open spec fn finalized_input(input: PsbtInputView) -> PsbtInputView {
    match input.tap_key_sig {
        Some(sig) => PsbtInputView {
            final_script_witness: Some(seq![sig]),
            tap_key_sig: None,
            tap_internal_key: None,
            ..input
        },
        None => input,
    }
}

/// The PSBT with all signed inputs made final.
pub open spec fn finalized(psbt: PsbtView) -> PsbtView {
    PsbtView { inputs: psbt.inputs.map_values(|i: PsbtInputView| finalized_input(i)), ..psbt }
}

fn collect_prevouts(inputs: &Vec<PsbtInput>) -> (outputs: Vec<TxOut>)
    ensures
        views(outputs@) == prevouts(views(inputs@)),
{
    let mut outputs: Vec<TxOut> = Vec::new();
    let mut i: usize = 0;
    assert(views(inputs@).take(0) =~= Seq::<PsbtInputView>::empty());
    assert(views(outputs@) =~= Seq::<TxOutView>::empty());
    while i < inputs.len()
        invariant
            i <= inputs@.len(),
            views(outputs@) == prevouts(views(inputs@).take(i as int)),
        decreases inputs.len() - i,
    {
        let ghost before = outputs@;
        assert(views(inputs@).take(i + 1).drop_last() =~= views(inputs@).take(i as int));
        match &inputs[i].witness_utxo {
            Some(utxo) => {
                let copy = TxOut { value: utxo.value, script_pubkey: utxo.script_pubkey.clone() };
                assert(copy@.script_pubkey =~= utxo@.script_pubkey);
                outputs.push(copy);
                assert(views(outputs@) =~= views(before).push(utxo@));
            },
            None => {},
        }
        i = i + 1;
    }
    assert(views(inputs@).take(i as int) =~= views(inputs@));
    outputs
}

fn copy_items(items: &Vec<Vec<u8>>) -> (copy: Vec<Vec<u8>>)
    ensures
        views(copy@) == views(items@),
{
    let mut copy: Vec<Vec<u8>> = Vec::new();
    let mut i: usize = 0;
    while i < items.len()
        invariant
            i <= items@.len(),
            copy@.len() == i,
            forall|j: int| 0 <= j < i ==> (#[trigger] copy@[j])@ == items@[j]@,
        decreases items.len() - i,
    {
        let item = items[i].clone();
        assert(item@ =~= items@[i as int]@);
        copy.push(item);
        i = i + 1;
    }
    assert(views(copy@) =~= views(items@));
    copy
}

fn collect_witnesses(inputs: &Vec<PsbtInput>) -> (witnesses: Vec<Vec<Vec<u8>>>)
    ensures
        witness_views(witnesses@) == final_witnesses(views(inputs@)),
{
    let mut witnesses: Vec<Vec<Vec<u8>>> = Vec::new();
    let mut i: usize = 0;
    while i < inputs.len()
        invariant
            i <= inputs@.len(),
            witnesses@.len() == i,
            forall|j: int|
                0 <= j < i ==> views((#[trigger] witnesses@[j])@) == final_witnesses(
                    views(inputs@),
                )[j],
        decreases inputs.len() - i,
    {
        assert(views(inputs@)[i as int] == inputs@[i as int]@);
        match &inputs[i].final_script_witness {
            Some(items) => {
                witnesses.push(copy_items(items));
            },
            None => {
                let empty: Vec<Vec<u8>> = Vec::new();
                assert(views(empty@) =~= Seq::<Seq<u8>>::empty());
                witnesses.push(empty);
            },
        }
        i = i + 1;
    }
    assert(witness_views(witnesses@) =~= final_witnesses(views(inputs@)));
    witnesses
}

/// Signs an input, given the digest to be signed or the words with which it was refused.
/// The internal key is set in either case, unless the input has one.
pub fn sign_input(
    input: &mut PsbtInput,
    internal_key: &Vec<u8>,
    signing_keypair: &Keypair,
    sighash: Result<Vec<u8>, String>,
) -> (r: Result<(), String>)
    requires
        sighash matches Ok(digest) ==> digest@.len() == 32,
    ensures
        match sighash {
            Ok(digest) => r is Ok && is_signed(
                old(input)@,
                final(input)@,
                digest@,
                internal_key@,
                xonly_public_key(signing_keypair@),
            ),
            Err(e) => {
                &&& r matches Err(words)
                &&& words@ == "Sighash failed: "@ + e@
                &&& final(input)@ == with_internal_key(old(input)@, internal_key@)
            },
        },
{
    if input.tap_internal_key.is_none() {
        let key = internal_key.clone();
        assert(key@ =~= internal_key@);
        input.tap_internal_key = Some(key);
    }
    match sighash {
        Err(e) => Err(concat("Sighash failed: ", e.as_str())),
        Ok(digest) => {
            let sig = signing_keypair.sign(digest.as_slice());
            input.tap_key_sig = Some(sig);
            Ok(())
        },
    }
}

impl Wallet {
    /// The wallet of a mnemonic whose derived key is given.
    pub fn from_xpriv(mnemonic: Mnemonic, network: Network, xpriv: &Xpriv) -> (wallet: Wallet)
        ensures
            wallet@ == wallet_of_key(mnemonic@, network, xpriv@),
            wallet@.wf(),
            wallet@.has_own_xpub(),
            is_p2tr(wallet@.address.script_pubkey),
    {
        let keypair = xpriv.to_keypair();
        let address = keypair.p2tr_address(network);
        let xpub = xpriv.to_xpub();
        Wallet { mnemonic, network, address, keypair, xpub }
    }

    /// The wallet of a mnemonic on a network. Its key is the child of the master key along
    /// the BIP86 path of the network. It fails only where no master key can be made of the
    /// seed.
    pub fn new(mnemonic: Mnemonic, network: Network) -> (r: Result<Wallet, String>)
        ensures
            result_view(r) == wallet_of(mnemonic@, network),
            r is Ok <==> master_key(network.is_test_kind(), mnemonic_seed(mnemonic@, ""@)) is Ok,
            r matches Ok(wallet) ==> wallet@.wf() && wallet@.has_own_xpub() && is_p2tr(
                wallet@.address.script_pubkey,
            ),
            r matches Ok(wallet) ==> is_wallet_of(wallet@, mnemonic@, network),
    {
        let seed = mnemonic.to_seed("");
        match Xpriv::from_seed(network, seed.as_slice()) {
            Ok(xpriv) => {
                assert(is_wallet_key(network, seed@, xpriv@));
                Ok(Wallet::from_xpriv(mnemonic, network, &xpriv))
            },
            Err(e) => Err(e),
        }
    }

    /// A new mnemonic of twenty-four words.
    pub fn generate_mnemonic() -> (mnemonic: Mnemonic)
        ensures
            is_mnemonic(mnemonic@),
            word_count(mnemonic@) == 24,
    {
        Mnemonic::generate()
    }

    /// Whether a text is a mnemonic.
    pub fn validate_mnemonic(mnemonic: &str) -> (valid: bool)
        ensures
            valid == (mnemonic_parsed(mnemonic@) is Ok),
    {
        Mnemonic::parse(mnemonic).is_ok()
    }

    /// The address of the wallet.
    pub fn get_address(&self) -> (address: &Address)
        ensures
            *address == self.address,
    {
        &self.address
    }

    /// The secret key in hexadecimal.
    pub fn get_private_key_hex(&self) -> (text: String)
        ensures
            text@ == hex_text(self@.secret),
    {
        hex_encode(self.keypair.secret_bytes())
    }

    /// Signs the inputs of a PSBT that spend from a Taproot key. The signatures of a
    /// wallet verify under the output key of its address.
    pub fn sign_psbt(&self, psbt: &mut Psbt) -> (r: Result<usize, String>)
        ensures
            signs(self@, old(psbt)@, final(psbt)@, plain_result(r)),
            old(psbt)@.wf() ==> final(psbt)@.wf(),
            self@.wf() ==> self@.signing_key() == p2tr_output_key(self@.address.script_pubkey),
    {
        let our_internal_key = self.keypair.x_only_public_key();
        let tweaked = self.keypair.tap_tweak();
        let ghost before = psbt@;
        let known = collect_prevouts(&psbt.inputs);
        if known.len() == 0 {
            return Err("No witness_utxo found in PSBT inputs".to_owned());
        }
        let tx_bytes = psbt.unsigned_tx.encode();
        let n: usize = psbt.inputs.len();
        let mut signed_count: usize = 0;
        let mut i: usize = 0;
        while i < n
            invariant
                i <= n,
                n == psbt.inputs@.len(),
                n == before.inputs.len(),
                before == old(psbt)@,
                psbt@.unsigned_tx == before.unsigned_tx,
                psbt@.origin == before.origin,
                views(known@) == prevouts(before.inputs),
                known@.len() > 0,
                tx_bytes@ == unsigned_tx_encoded(before.unsigned_tx),
                transaction_decoded(tx_bytes@) matches Ok(content) && content.unsigned_tx
                    == before.unsigned_tx,
                our_internal_key@ == self@.internal_key(),
                is_xonly_key(our_internal_key@),
                xonly_public_key(tweaked@) == self@.signing_key(),
                signed_count == taproot_count(before.inputs.take(i as int)),
                signed_count <= i,
                signed_count > 0 ==> known@.len() == before.unsigned_tx.inputs.len(),
                forall|j: int|
                    #![trigger psbt@.inputs[j]]
                    0 <= j < i ==> input_signed(self@, before, psbt@, j),
                forall|j: int|
                    #![trigger psbt@.inputs[j]]
                    i <= j < n ==> psbt@.inputs[j] == before.inputs[j],
                before.wf() ==> psbt@.wf(),
                self@.wf() ==> self@.signing_key() == p2tr_output_key(
                    self@.address.script_pubkey,
                ),
            decreases n - i,
        {
            let ghost current = psbt@;
            let ghost inputs = psbt.inputs@;
            assert(before.inputs.take(i + 1).drop_last() =~= before.inputs.take(i as int));
            assert(current.inputs[i as int] == before.inputs[i as int]);
            assert(current.inputs[i as int] == psbt.inputs[i as int]@);
            let is_p2tr: bool = match &psbt.inputs[i].witness_utxo {
                Some(utxo) => utxo.script_pubkey.len() == 34 && utxo.script_pubkey[0] == 0x51
                    && utxo.script_pubkey[1] == 0x20,
                None => false,
            };
            assert(is_p2tr == is_taproot_input(before.inputs[i as int]));
            if is_p2tr {
                let sighash = key_spend_sighash(tx_bytes.as_slice(), i, &known);
                match sign_input(&mut psbt.inputs[i], &our_internal_key, &tweaked, sighash) {
                    Err(e) => {
                        proof {
                            let k = i as int;
                            lemma_taproot_count(before.inputs.take(k), k);
                            lemma_taproot_count(before.inputs, k + 1);
                            assert forall|j: int| 0 <= j < k implies !is_taproot_input(
                                #[trigger] before.inputs[j],
                            ) && current.inputs[j] == before.inputs[j] by {
                                assert(before.inputs.take(k)[j] == before.inputs[j]);
                            }
                            assert(is_first_taproot(before.inputs, k));
                            assert(psbt.inputs@ =~= inputs.update(k, psbt.inputs@[k]));
                            lemma_views_update(inputs, k, psbt.inputs@[k]);
                            assert(current.inputs =~= before.inputs);
                        }
                        return Err(e);
                    },
                    Ok(_) => {
                        signed_count = signed_count + 1;
                    },
                }
            }
            proof {
                assert(psbt.inputs@ =~= inputs.update(i as int, psbt.inputs@[i as int]));
                lemma_views_update(inputs, i as int, psbt.inputs@[i as int]);
                assert forall|j: int|
                    #![trigger psbt@.inputs[j]]
                    0 <= j < i + 1 implies input_signed(self@, before, psbt@, j) by {
                    if j < i {
                        assert(psbt@.inputs[j] == current.inputs[j]);
                    }
                }
            }
            i = i + 1;
        }
        assert(before.inputs.take(n as int) =~= before.inputs);
        Ok(signed_count)
    }

    /// Makes the signed inputs of a PSBT final.
    pub fn finalize_psbt(&self, psbt: &mut Psbt) -> (r: Result<(), String>)
        ensures
            r is Ok,
            final(psbt)@ == finalized(old(psbt)@),
            old(psbt)@.wf() ==> final(psbt)@.wf(),
    {
        let ghost before = psbt@;
        let n: usize = psbt.inputs.len();
        let mut i: usize = 0;
        while i < n
            invariant
                i <= n,
                n == psbt.inputs@.len(),
                n == before.inputs.len(),
                before == old(psbt)@,
                psbt@.unsigned_tx == before.unsigned_tx,
                psbt@.origin == before.origin,
                forall|j: int|
                    #![trigger psbt@.inputs[j]]
                    0 <= j < i ==> psbt@.inputs[j] == finalized_input(before.inputs[j]),
                forall|j: int|
                    #![trigger psbt@.inputs[j]]
                    i <= j < n ==> psbt@.inputs[j] == before.inputs[j],
                before.wf() ==> psbt@.wf(),
            decreases n - i,
        {
            let ghost current = psbt@;
            let ghost inputs = psbt.inputs@;
            assert(current.inputs[i as int] == before.inputs[i as int]);
            assert(current.inputs[i as int] == inputs[i as int]@);
            let signature: Option<Vec<u8>> = match &psbt.inputs[i].tap_key_sig {
                Some(sig) => Some(sig.clone()),
                None => None,
            };
            if let Some(sig) = signature {
                let ghost bytes = sig@;
                let mut witness: Vec<Vec<u8>> = Vec::new();
                witness.push(sig);
                assert(views(witness@) =~= seq![bytes]);
                psbt.inputs[i].final_script_witness = Some(witness);
                psbt.inputs[i].tap_key_sig = None;
                psbt.inputs[i].tap_internal_key = None;
                assert(psbt.inputs@[i as int]@ == finalized_input(before.inputs[i as int]));
                assert(before.inputs[i as int].wf() ==> psbt.inputs@[i as int]@.wf()) by {
                    reveal_with_fuel(witness_size, 2);
                    assert(seq![bytes].drop_last() =~= Seq::<Seq<u8>>::empty());
                }
            }
            proof {
                assert(psbt.inputs@ =~= inputs.update(i as int, psbt.inputs@[i as int]));
                lemma_views_update(inputs, i as int, psbt.inputs@[i as int]);
            }
            i = i + 1;
        }
        assert(psbt@.inputs =~= finalized(before).inputs);
        Ok(())
    }

    /// The complete transaction of a PSBT.
    pub fn extract_tx(&self, psbt: &Psbt) -> (r: Result<Transaction, String>)
        requires
            psbt@.wf(),
            psbt@.total_funding() !is OutOfBounds,
        ensures
            match extracted_tx(psbt@) {
                Ok(bytes) => match r {
                    Ok(tx) => tx@ == (TransactionView {
                        unsigned_tx: psbt@.unsigned_tx,
                        witnesses: final_witnesses(psbt@.inputs),
                        bytes,
                    }),
                    Err(_) => false,
                },
                Err(words) => r matches Err(e) && e@ == "Failed to extract transaction: "@ + words,
            },
            r matches Ok(tx) ==> (psbt@.has_small_witnesses() ==> encodes(
                tx@.bytes,
                tx@.unsigned_tx,
                tx@.witnesses,
            )),
            psbt@.total_funding() !is Total ==> r is Err,
            psbt@.total_funding() matches Funding::Total(total) ==> {
                &&& total < total_value(psbt@.unsigned_tx.outputs) ==> r is Err
                &&& total_value(psbt@.unsigned_tx.outputs) <= total <= total_value(
                    psbt@.unsigned_tx.outputs,
                ) + 6250 * (164 * psbt@.inputs.len() + 40) ==> r is Ok
            },
    {
        match extract(psbt) {
            Ok(bytes) => {
                let unsigned_tx = psbt.unsigned_tx.duplicate();
                let witnesses = collect_witnesses(&psbt.inputs);
                Ok(Transaction { unsigned_tx, witnesses, bytes })
            },
            Err(e) => Err(concat("Failed to extract transaction: ", e.as_str())),
        }
    }

    /// The extended public key in base58.
    pub fn get_xpub(&self) -> (text: String)
        ensures
            text@ == self@.xpub.text,
    {
        self.xpub.text.clone()
    }

    /// The descriptor of the wallet.
    pub fn get_descriptor(&self) -> (text: String)
        ensures
            text@ == self@.descriptor(),
    {
        let head = concat("tr([", self.xpub.fingerprint.as_str());
        let head = concat(head.as_str(), self.network.coin_type());
        let head = concat(head.as_str(), "]");
        let head = concat(head.as_str(), self.xpub.text.as_str());
        concat(head.as_str(), "/0/0/*)")
    }
}

/// A PSBT that was signed and made final holds, for every input that spends from a
/// Taproot key, a witness of one signature of sixty-four bytes that verifies under the
/// wallet's signing key; the fields that served the signing are gone, and nothing else
/// has changed.
pub proof fn lemma_signed_and_finalized(
    wallet: WalletView,
    before: PsbtView,
    after: PsbtView,
    count: usize,
    i: int,
)
    requires
        signs(wallet, before, after, Ok(count)),
        0 <= i < before.inputs.len(),
        is_taproot_input(before.inputs[i]),
    ensures
        ({
            let input = finalized(after).inputs[i];
            &&& input.final_script_witness matches Some(items)
            &&& items.len() == 1
            &&& items[0].len() == 64
            &&& taproot_sighash(
                before.unsigned_tx,
                i as usize,
                prevouts(before.inputs),
            ) matches Ok(digest)
            &&& schnorr_verifies(items[0], digest, wallet.signing_key())
            &&& input == (PsbtInputView {
                final_script_witness: Some(items),
                tap_key_sig: None,
                tap_internal_key: None,
                ..before.inputs[i]
            })
        }),
        finalized(after).unsigned_tx == before.unsigned_tx,
{
    assert(input_signed(wallet, before, after, i)) by {
        let _ = after.inputs[i];
    }
}

/// Making a PSBT final twice is the same as once.
pub proof fn lemma_finalize_idempotent(psbt: PsbtView)
    ensures
        finalized(finalized(psbt)) == finalized(psbt),
{
    assert(finalized(finalized(psbt)).inputs =~= finalized(psbt).inputs);
}

/// Signing keeps what is spent: a PSBT can be signed again, with the same count.
pub proof fn lemma_signing_repeats(
    wallet: WalletView,
    before: PsbtView,
    after: PsbtView,
    count: usize,
)
    requires
        signs(wallet, before, after, Ok(count)),
    ensures
        prevouts(after.inputs) == prevouts(before.inputs),
        taproot_count(after.inputs) == count,
        signing_refusal(after) is None,
{
    assert forall|i: int| 0 <= i < before.inputs.len() implies (#[trigger]
    after.inputs[i]).witness_utxo == before.inputs[i].witness_utxo by {
        assert(input_signed(wallet, before, after, i));
    }
    lemma_same_prevouts(before.inputs, after.inputs);
}

proof fn lemma_same_prevouts(a: Seq<PsbtInputView>, b: Seq<PsbtInputView>)
    requires
        a.len() == b.len(),
        forall|i: int|
            0 <= i < a.len() ==> (#[trigger] b[i]).witness_utxo == a[i].witness_utxo,
    ensures
        prevouts(b) == prevouts(a),
        taproot_count(b) == taproot_count(a),
    decreases a.len(),
{
    if a.len() > 0 {
        assert(b.last() == b[b.len() - 1]);
        assert forall|i: int| 0 <= i < a.drop_last().len() implies (#[trigger]
        b.drop_last()[i]).witness_utxo == a.drop_last()[i].witness_utxo by {
            assert(b.drop_last()[i] == b[i]);
        }
        lemma_same_prevouts(a.drop_last(), b.drop_last());
    }
}

/// The descriptor of a wallet names its extended public key, so wallets with different
/// ones have different descriptors.
pub proof fn lemma_descriptor_names_xpub(v: WalletView, w: WalletView)
    requires
        v.has_own_xpub(),
        w.has_own_xpub(),
    ensures
        v.descriptor().subrange(14, v.descriptor().len() - 7) == v.xpub.text,
        v.descriptor() == w.descriptor() ==> v.xpub.text == w.xpub.text,
{
    reveal_strlit("tr([");
    reveal_strlit("0");
    reveal_strlit("1");
    reveal_strlit("]");
    reveal_strlit("/0/0/*)");
    assert(v.descriptor().subrange(14, v.descriptor().len() - 7) =~= v.xpub.text);
    assert(w.descriptor().subrange(14, w.descriptor().len() - 7) =~= w.xpub.text);
}

/// A PSBT whose parts keep the limits of the decoder still does so when it is signed and
/// when it is made final.
pub proof fn lemma_signing_fits(
    wallet: WalletView,
    before: PsbtView,
    after: PsbtView,
    count: usize,
)
    requires
        before.wf(),
        before.fits(),
        signs(wallet, before, after, Ok(count)),
    ensures
        after.fits(),
        finalized(after).fits(),
{
    assert forall|i: int| 0 <= i < after.inputs.len() implies (#[trigger] after.inputs[i]).fits()
        && finalized_input(after.inputs[i]).fits() by {
        assert(before.inputs[i].wf() && before.inputs[i].fits());
        assert(input_signed(wallet, before, after, i));
        if let Some(sig) = after.inputs[i].tap_key_sig {
            reveal_with_fuel(witness_size, 2);
            assert(seq![sig].drop_last() =~= Seq::<Seq<u8>>::empty());
        }
    }
}

} // verus!
