//! Keys: mnemonics, seeds, extended keys, key pairs and addresses.

use crate::network::{Network, BIP86_MAINNET_PATH, BIP86_TESTNET_PATH};
use crate::psbt::{is_xonly_key, result_view};
use crate::text::concat;
use crate::tx::{Address, AddressView};
use bitcoin::bip32::{ChildNumber, DerivationPath};
use bitcoin::key::{TapTweak, XOnlyPublicKey};
use bitcoin::secp256k1::{Message, Secp256k1};
use std::str::FromStr;
use vstd::prelude::*;

verus! {

/// The order of the group of the curve secp256k1.
pub open spec fn curve_order() -> int {
    0xffff_ffff_ffff_ffff_ffff_ffff_ffff_fffe_baae_dce6_af48_a03b_bfd2_5e8c_d036_4141int
}

/// The number that bytes write, the most significant one first.
pub open spec fn big_endian(bytes: Seq<u8>) -> nat
    decreases bytes.len(),
{
    if bytes.len() == 0 {
        0
    } else {
        big_endian(bytes.drop_last()) * 256 + bytes.last() as nat
    }
}

/// Whether bytes are a secret key: thirty-two bytes, the number that they write
/// neither zero nor as large as the order of the group.
pub open spec fn is_secret_key(bytes: Seq<u8>) -> bool {
    bytes.len() == 32 && 0 < big_endian(bytes) < curve_order()
}

/// The number of words of a phrase whose words stand one blank apart.
pub open spec fn word_count(phrase: Seq<char>) -> nat {
    1 + phrase.filter(|c: char| c == ' ').len()
}

/// The lengths that a mnemonic can have.
pub open spec fn is_word_count(n: nat) -> bool {
    n == 12 || n == 15 || n == 18 || n == 21 || n == 24
}

/// The phrase that `Mnemonic::parse` of the `bip39` crate reads from a text, its
/// words one blank apart, or the words with which it refuses the text.
pub uninterp spec fn mnemonic_parsed(text: Seq<char>) -> Result<Seq<char>, Seq<char>>;

/// The seed that `Mnemonic::to_seed` of the `bip39` crate computes.
pub uninterp spec fn mnemonic_seed(phrase: Seq<char>, passphrase: Seq<char>) -> Seq<u8>;

/// Whether a phrase is a mnemonic in the form in which it is kept.
pub open spec fn is_mnemonic(phrase: Seq<char>) -> bool {
    mnemonic_parsed(phrase) == Ok::<Seq<char>, Seq<char>>(phrase)
}

/// `Mnemonic::parse`, the mnemonic given by its `Display`: a phrase that reads as
/// itself and has one of the possible lengths.
#[verifier::external_body]
fn parse_phrase(text: &str) -> (r: Result<String, String>)
    ensures
        result_view(r) == mnemonic_parsed(text@),
        r matches Ok(phrase) ==> is_mnemonic(phrase@) && is_word_count(word_count(phrase@)),
{
    bip39::Mnemonic::parse(text).map(|m| m.to_string()).map_err(|e| e.to_string())
}

/// `Mnemonic::generate`: a mnemonic of the length asked for. Which one rests on
/// chance.
#[verifier::external_body]
fn generate_phrase(words: usize) -> (phrase: String)
    requires
        is_word_count(words as nat),
    ensures
        is_mnemonic(phrase@),
        word_count(phrase@) == words,
{
    bip39::Mnemonic::generate(words).unwrap().to_string()
}

/// `Mnemonic::to_seed`: sixty-four bytes.
#[verifier::external_body]
fn seed_of_phrase(phrase: &str, passphrase: &str) -> (seed: Vec<u8>)
    requires
        is_mnemonic(phrase@),
    ensures
        seed@ == mnemonic_seed(phrase@, passphrase@),
        seed@.len() == 64,
{
    bip39::Mnemonic::parse(phrase).unwrap().to_seed(passphrase).to_vec()
}

/// A BIP39 mnemonic.
#[derive(Debug)]
pub struct Mnemonic {
    phrase: String,
}

impl View for Mnemonic {
    type V = Seq<char>;

    closed spec fn view(&self) -> Seq<char> {
        self.phrase@
    }
}

impl Mnemonic {
    #[verifier::type_invariant]
    spec fn wf(self) -> bool {
        is_mnemonic(self.phrase@)
    }

    /// Reads a mnemonic.
    pub fn parse(text: &str) -> (r: Result<Mnemonic, String>)
        ensures
            result_view(r) == mnemonic_parsed(text@),
            r matches Ok(m) ==> is_mnemonic(m@) && is_word_count(word_count(m@)),
    {
        match parse_phrase(text) {
            Ok(phrase) => Ok(Mnemonic { phrase }),
            Err(e) => Err(e),
        }
    }

    /// A new mnemonic of twenty-four words.
    pub fn generate() -> (m: Mnemonic)
        ensures
            is_mnemonic(m@),
            word_count(m@) == 24,
    {
        Mnemonic { phrase: generate_phrase(24) }
    }

    /// The words, one blank apart.
    pub fn phrase(&self) -> (phrase: &str)
        ensures
            phrase@ == self@,
            is_mnemonic(self@),
    {
        proof {
            use_type_invariant(self);
        }
        self.phrase.as_str()
    }

    /// The seed of the mnemonic.
    pub fn to_seed(&self, passphrase: &str) -> (seed: Vec<u8>)
        ensures
            seed@ == mnemonic_seed(self@, passphrase@),
            seed@.len() == 64,
    {
        proof {
            use_type_invariant(self);
        }
        seed_of_phrase(self.phrase.as_str(), passphrase)
    }
}

/// Whether bytes are an extended private key in its BIP32 encoding.
pub open spec fn is_xpriv(bytes: Seq<u8>) -> bool {
    &&& bytes.len() == 78
    &&& bytes.subrange(0, 4) == seq![0x04u8, 0x88, 0xad, 0xe4] || bytes.subrange(0, 4) == seq![
        0x04u8,
        0x35,
        0x83,
        0x94,
    ]
    &&& is_secret_key(bytes.subrange(46, 78))
}

/// The number of derivations that an extended private key is away from its master.
pub open spec fn xpriv_depth(bytes: Seq<u8>) -> nat {
    bytes[4] as nat
}

/// The secret key in an extended private key.
pub open spec fn xpriv_secret(bytes: Seq<u8>) -> Seq<u8> {
    bytes.subrange(46, 78)
}

/// The master key that `Xpriv::new_master` computes from a seed, for the test networks or
/// for the main network, or the words with which it refuses the seed.
pub uninterp spec fn master_key(test_kind: bool, seed: Seq<u8>) -> Result<Seq<u8>, Seq<char>>;

/// The child numbers that `DerivationPath::from_str` reads, or the words with which it
/// refuses a text.
pub uninterp spec fn path_indices(path: Seq<char>) -> Result<Seq<u32>, Seq<char>>;

/// The key that `Xpriv::derive_priv` derives along a path, or the words with which it
/// refuses.
pub uninterp spec fn derived_key(xpriv: Seq<u8>, path: Seq<u32>) -> Result<Seq<u8>, Seq<char>>;

/// The child numbers of a BIP86 path: purpose, coin type and account are hardened,
/// chain and index are not.
pub open spec fn bip86_indices(coin_type: u32) -> Seq<u32> {
    seq![0x8000_0056u32, (0x8000_0000 + coin_type) as u32, 0x8000_0000, 0, 0]
}

/// That the two paths that the wallet uses read as the child numbers of BIP86.
pub open spec fn reads_wallet_paths(
    path: Seq<char>,
    indices: Result<Seq<u32>, Seq<char>>,
) -> bool {
    &&& path == BIP86_MAINNET_PATH@ ==> indices == Ok::<Seq<u32>, Seq<char>>(bip86_indices(0))
    &&& path == BIP86_TESTNET_PATH@ ==> indices == Ok::<Seq<u32>, Seq<char>>(bip86_indices(1))
}

/// `Xpriv::new_master`, the key in its BIP32 encoding. Of the network it only matters
/// whether it is a test network. Only a seed whose hash is no secret key is refused.
#[verifier::external_body]
fn new_master(network: Network, seed: &[u8]) -> (r: Result<Vec<u8>, String>)
    ensures
        result_view(r) == master_key(network.is_test_kind(), seed@),
        r matches Ok(key) ==> is_xpriv(key@) && xpriv_depth(key@) == 0,
{
    let network = match network {
        Network::Bitcoin => bitcoin::Network::Bitcoin,
        Network::Testnet => bitcoin::Network::Testnet,
        Network::Testnet4 => bitcoin::Network::Testnet4,
        Network::Signet => bitcoin::Network::Signet,
        Network::Regtest => bitcoin::Network::Regtest,
    };
    bitcoin::bip32::Xpriv::new_master(network, seed).map(|k| k.encode().to_vec()).map_err(|e| e.to_string())
}

/// `DerivationPath::from_str`. Of the two paths that the wallet uses it is stated what
/// they read as.
#[verifier::external_body]
fn parse_path(path: &str) -> (r: Result<Vec<u32>, String>)
    ensures
        result_view(r) == path_indices(path@),
        reads_wallet_paths(path@, result_view(r)),
{
    DerivationPath::from_str(path).map(|p| p.into_iter().map(|c| u32::from(*c)).collect()).map_err(|e| e.to_string())
}

/// `Xpriv::derive_priv`, both keys in their BIP32 encoding. The depth of a key is one
/// byte, and only a path that leads beyond it is refused. The crate panics where a
/// hash that it computes is no secret key, which no input is known to bring about.
#[verifier::external_body]
fn derive_priv(xpriv: &[u8], path: &Vec<u32>) -> (r: Result<Vec<u8>, String>)
    requires
        is_xpriv(xpriv@),
    ensures
        result_view(r) == derived_key(xpriv@, path@),
        r is Ok <==> xpriv_depth(xpriv@) + path@.len() <= 255,
        r matches Ok(key) ==> is_xpriv(key@) && xpriv_depth(key@) == xpriv_depth(xpriv@)
            + path@.len(),
{
    let path: Vec<ChildNumber> = path.iter().map(|n| ChildNumber::from(*n)).collect();
    bitcoin::bip32::Xpriv::decode(xpriv).unwrap().derive_priv(&Secp256k1::new(), &path).map(|k| k.encode().to_vec()).map_err(|e| e.to_string())
}

/// `Xpriv::to_keypair`, the key pair given by its secret key: the one in the extended
/// key.
#[verifier::external_body]
fn keypair_of_xpriv(xpriv: &[u8]) -> (secret: Vec<u8>)
    requires
        is_xpriv(xpriv@),
    ensures
        secret@ == xpriv_secret(xpriv@),
{
    bitcoin::bip32::Xpriv::decode(xpriv).unwrap().to_keypair(&Secp256k1::new()).secret_bytes().to_vec()
}

/// The extended private key of a wallet, in its BIP32 encoding.
#[derive(Debug)]
pub struct Xpriv {
    bytes: Vec<u8>,
}

impl View for Xpriv {
    type V = Seq<u8>;

    closed spec fn view(&self) -> Seq<u8> {
        self.bytes@
    }
}

/// The key that the wallet of a network derives from a seed.
pub open spec fn wallet_key(network: Network, seed: Seq<u8>) -> Result<Seq<u8>, Seq<char>> {
    match path_indices(network.path_text()) {
        Err(e) => Err("Invalid derivation path: "@ + e),
        Ok(path) => match master_key(network.is_test_kind(), seed) {
            Err(e) => Err("Failed to create master key: "@ + e),
            Ok(master) => match derived_key(master, path) {
                Err(e) => Err("Derivation failed: "@ + e),
                Ok(key) => Ok(key),
            },
        },
    }
}

/// Whether a key is the child of the master key of a seed along the BIP86 path of a
/// network.
pub open spec fn is_wallet_key(network: Network, seed: Seq<u8>, key: Seq<u8>) -> bool {
    &&& is_xpriv(key)
    &&& xpriv_depth(key) == 5
    &&& master_key(network.is_test_kind(), seed) matches Ok(master)
    &&& derived_key(master, bip86_indices(network.coin_type_index())) == Ok::<
        Seq<u8>,
        Seq<char>,
    >(key)
}

impl Xpriv {
    #[verifier::type_invariant]
    spec fn wf(self) -> bool {
        is_xpriv(self.bytes@) && xpriv_depth(self.bytes@) == 5
    }

    /// The key that the wallet of a network derives from a seed: of the paths and the
    /// derivation only the making of the master key can fail.
    pub fn from_seed(network: Network, seed: &[u8]) -> (r: Result<Xpriv, String>)
        ensures
            result_view(r) == wallet_key(network, seed@),
            r is Ok <==> master_key(network.is_test_kind(), seed@) is Ok,
            r matches Ok(key) ==> is_wallet_key(network, seed@, key@),
    {
        match parse_path(network.derivation_path()) {
            Err(e) => Err(concat("Invalid derivation path: ", e.as_str())),
            Ok(path) => match new_master(network, seed) {
                Err(e) => Err(concat("Failed to create master key: ", e.as_str())),
                Ok(master) => match derive_priv(master.as_slice(), &path) {
                    Err(e) => Err(concat("Derivation failed: ", e.as_str())),
                    Ok(bytes) => Ok(Xpriv { bytes }),
                },
            },
        }
    }

    /// The key pair of the extended key.
    pub fn to_keypair(&self) -> (keypair: Keypair)
        ensures
            keypair@ == xpriv_secret(self@),
            is_xpriv(self@),
    {
        proof {
            use_type_invariant(self);
        }
        Keypair { secret: keypair_of_xpriv(self.bytes.as_slice()) }
    }

    /// The extended public key.
    pub fn to_xpub(&self) -> (xpub: Xpub)
        ensures
            xpub@ == xpub_of(self@),
            xpub@.depth == 5,
            xpub@.public_key == compressed_public_key(xpriv_secret(self@)),
            xpub@.fingerprint.len() == 8,
            reads_as_xpub(xpub@.text, xpub@),
    {
        proof {
            use_type_invariant(self);
        }
        xpub_of_xpriv(self.bytes.as_slice())
    }
}

/// What the wallet reads of an extended public key.
pub struct XpubView {
    pub text: Seq<char>,
    pub fingerprint: Seq<char>,
    pub depth: u8,
    pub public_key: Seq<u8>,
}

/// An extended public key: its base58 text, its fingerprint in hexadecimal, how many
/// derivations it is away from its master, and its compressed public key.
#[derive(Clone, Debug)]
pub struct Xpub {
    pub text: String,
    pub fingerprint: String,
    pub depth: u8,
    pub public_key: Vec<u8>,
}

impl View for Xpub {
    type V = XpubView;

    open spec fn view(&self) -> XpubView {
        XpubView {
            text: self.text@,
            fingerprint: self.fingerprint@,
            depth: self.depth,
            public_key: self.public_key@,
        }
    }
}

/// The extended public key that `Xpub::from_priv` computes.
pub uninterp spec fn xpub_of(xpriv: Seq<u8>) -> XpubView;

/// The extended public key that `Xpub::from_str` reads, or the words with which it
/// refuses a text.
pub uninterp spec fn xpub_parsed(text: Seq<char>) -> Result<XpubView, Seq<char>>;

/// The compressed public key that `Keypair::public_key` gives.
pub uninterp spec fn compressed_public_key(secret: Seq<u8>) -> Seq<u8>;

/// Whether a text reads as an extended public key.
pub open spec fn reads_as_xpub(text: Seq<char>, xpub: XpubView) -> bool {
    xpub_parsed(text) == Ok::<XpubView, Seq<char>>(xpub)
}

/// `Xpub::from_priv`, the key given by its `Display`, the `Display` of its fingerprint,
/// its depth and its public key. The depth is that of the private key, the public key is
/// that of the secret key, the fingerprint has eight digits, and the text reads back as
/// the key.
#[verifier::external_body]
fn xpub_of_xpriv(xpriv: &[u8]) -> (xpub: Xpub)
    requires
        is_xpriv(xpriv@),
    ensures
        xpub@ == xpub_of(xpriv@),
        xpub@.depth == xpriv_depth(xpriv@),
        xpub@.public_key == compressed_public_key(xpriv_secret(xpriv@)),
        xpub@.fingerprint.len() == 8,
        reads_as_xpub(xpub@.text, xpub@),
{
    let xpriv = bitcoin::bip32::Xpriv::decode(xpriv).unwrap();
    let x = bitcoin::bip32::Xpub::from_priv(&Secp256k1::new(), &xpriv);
    Xpub { text: x.to_string(), fingerprint: x.fingerprint().to_string(), depth: x.depth, public_key: x.public_key.serialize().to_vec() }
}

/// `Xpub::from_str`, the key given as by `xpub_of_xpriv`.
#[verifier::external_body]
fn read_xpub(text: &str) -> (r: Result<Xpub, String>)
    ensures
        result_view(r) == xpub_parsed(text@),
{
    let x = bitcoin::bip32::Xpub::from_str(text).map_err(|e| e.to_string())?;
    Ok(Xpub { text: x.to_string(), fingerprint: x.fingerprint().to_string(), depth: x.depth, public_key: x.public_key.serialize().to_vec() })
}

/// `Keypair::public_key` in its compressed form: a byte for the parity, and the x-only
/// public key.
#[verifier::external_body]
fn public_key_of_secret(secret: &[u8]) -> (key: Vec<u8>)
    requires
        is_secret_key(secret@),
    ensures
        key@ == compressed_public_key(secret@),
        key@.len() == 33,
        key@[0] == 2 || key@[0] == 3,
        key@.subrange(1, 33) == xonly_public_key(secret@),
{
    let keypair = bitcoin::key::Keypair::from_seckey_slice(&Secp256k1::new(), secret).unwrap();
    keypair.public_key().serialize().to_vec()
}

impl Xpub {
    /// Reads an extended public key.
    pub fn parse(text: &str) -> (r: Result<Xpub, String>)
        ensures
            result_view(r) == xpub_parsed(text@),
    {
        read_xpub(text)
    }
}

/// The x-only public key that `XOnlyPublicKey::from_keypair` computes.
pub uninterp spec fn xonly_public_key(secret: Seq<u8>) -> Seq<u8>;

/// The secret key that `TapTweak::tap_tweak` computes without a script tree.
pub uninterp spec fn tap_tweaked(secret: Seq<u8>) -> Seq<u8>;

/// The address that `Address::p2tr` makes of an internal key without a script tree.
pub uninterp spec fn p2tr_address(internal_key: Seq<u8>, network: Network) -> AddressView;

/// Whether `Secp256k1::verify_schnorr` accepts a signature of a digest under an x-only
/// public key.
pub uninterp spec fn schnorr_verifies(
    signature: Seq<u8>,
    digest: Seq<u8>,
    public_key: Seq<u8>,
) -> bool;

/// Whether a script pays to a Taproot output key: the opcode for witness version one
/// and a push of thirty-two bytes.
pub open spec fn is_p2tr(script: Seq<u8>) -> bool {
    script.len() == 34 && script[0] == 0x51 && script[1] == 0x20
}

/// The output key in a script that pays to one.
pub open spec fn p2tr_output_key(script: Seq<u8>) -> Seq<u8> {
    script.subrange(2, 34)
}

/// `XOnlyPublicKey::from_keypair`: thirty-two bytes that `XOnlyPublicKey::from_slice`
/// accepts.
#[verifier::external_body]
fn xonly_of_secret(secret: &[u8]) -> (key: Vec<u8>)
    requires
        is_secret_key(secret@),
    ensures
        key@ == xonly_public_key(secret@),
        key@.len() == 32,
        is_xonly_key(key@),
{
    let keypair = bitcoin::key::Keypair::from_seckey_slice(&Secp256k1::new(), secret).unwrap();
    XOnlyPublicKey::from_keypair(&keypair).0.serialize().to_vec()
}

/// `TapTweak::tap_tweak` of a key pair without a script tree, the pair given by its
/// secret key. The public key of the result is the output key of every address that
/// `Address::p2tr` makes of the public key of the argument. The crate panics where the
/// tweak has no result, which no key is known to bring about.
#[verifier::external_body]
fn tap_tweak_secret(secret: &[u8]) -> (tweaked: Vec<u8>)
    requires
        is_secret_key(secret@),
    ensures
        tweaked@ == tap_tweaked(secret@),
        is_secret_key(tweaked@),
        forall|network: Network|
            xonly_public_key(tweaked@) == p2tr_output_key(
                (#[trigger] p2tr_address(xonly_public_key(secret@), network)).script_pubkey,
            ),
{
    let secp = Secp256k1::new();
    let keypair = bitcoin::key::Keypair::from_seckey_slice(&secp, secret).unwrap();
    keypair.tap_tweak(&secp, None).to_keypair().secret_bytes().to_vec()
}

/// `Address::p2tr` without a script tree, the address given by its `Display` and its
/// script: one that pays to a Taproot output key.
#[verifier::external_body]
fn p2tr(internal_key: &[u8], network: Network) -> (address: Address)
    requires
        is_xonly_key(internal_key@),
    ensures
        address@ == p2tr_address(internal_key@, network),
        is_p2tr(address@.script_pubkey),
{
    let network = match network {
        Network::Bitcoin => bitcoin::Network::Bitcoin,
        Network::Testnet => bitcoin::Network::Testnet,
        Network::Testnet4 => bitcoin::Network::Testnet4,
        Network::Signet => bitcoin::Network::Signet,
        Network::Regtest => bitcoin::Network::Regtest,
    };
    let key = XOnlyPublicKey::from_slice(internal_key).unwrap();
    let address = bitcoin::Address::p2tr(&Secp256k1::new(), key, None, network);
    Address { text: address.to_string(), script_pubkey: address.script_pubkey().to_bytes() }
}

/// `Secp256k1::sign_schnorr`: a signature of sixty-four bytes that verifies under the
/// public key of the secret key. Which one rests on chance.
#[verifier::external_body]
fn sign_schnorr(digest: &[u8], secret: &[u8]) -> (signature: Vec<u8>)
    requires
        digest@.len() == 32,
        is_secret_key(secret@),
    ensures
        signature@.len() == 64,
        schnorr_verifies(signature@, digest@, xonly_public_key(secret@)),
{
    let secp = Secp256k1::new();
    let keypair = bitcoin::key::Keypair::from_seckey_slice(&secp, secret).unwrap();
    secp.sign_schnorr(&Message::from_digest_slice(digest).unwrap(), &keypair).serialize().to_vec()
}

/// A key pair, held as its secret key.
#[derive(Debug)]
pub struct Keypair {
    secret: Vec<u8>,
}

impl View for Keypair {
    type V = Seq<u8>;

    closed spec fn view(&self) -> Seq<u8> {
        self.secret@
    }
}

impl Keypair {
    #[verifier::type_invariant]
    spec fn wf(self) -> bool {
        is_secret_key(self.secret@)
    }

    /// The secret key.
    pub fn secret_bytes(&self) -> (secret: &[u8])
        ensures
            secret@ == self@,
            is_secret_key(self@),
    {
        proof {
            use_type_invariant(self);
        }
        self.secret.as_slice()
    }

    /// The x-only public key.
    pub fn x_only_public_key(&self) -> (key: Vec<u8>)
        ensures
            key@ == xonly_public_key(self@),
            key@.len() == 32,
            is_xonly_key(key@),
    {
        proof {
            use_type_invariant(self);
        }
        xonly_of_secret(self.secret.as_slice())
    }

    /// The compressed public key.
    pub fn public_key(&self) -> (key: Vec<u8>)
        ensures
            key@ == compressed_public_key(self@),
            key@.len() == 33,
            key@[0] == 2 || key@[0] == 3,
            key@.subrange(1, 33) == xonly_public_key(self@),
    {
        proof {
            use_type_invariant(self);
        }
        public_key_of_secret(self.secret.as_slice())
    }

    /// The key pair that spends the outputs of the Taproot address of this one.
    pub fn tap_tweak(&self) -> (tweaked: Keypair)
        ensures
            tweaked@ == tap_tweaked(self@),
            forall|network: Network|
                xonly_public_key(tweaked@) == p2tr_output_key(
                    (#[trigger] p2tr_address(xonly_public_key(self@), network)).script_pubkey,
                ),
    {
        proof {
            use_type_invariant(self);
        }
        Keypair { secret: tap_tweak_secret(self.secret.as_slice()) }
    }

    /// The Taproot address of the key pair on a network.
    pub fn p2tr_address(&self, network: Network) -> (address: Address)
        ensures
            address@ == p2tr_address(xonly_public_key(self@), network),
            is_p2tr(address@.script_pubkey),
    {
        let key = self.x_only_public_key();
        p2tr(key.as_slice(), network)
    }

    /// Signs a digest.
    pub fn sign(&self, digest: &[u8]) -> (signature: Vec<u8>)
        requires
            digest@.len() == 32,
        ensures
            signature@.len() == 64,
            schnorr_verifies(signature@, digest@, xonly_public_key(self@)),
    {
        proof {
            use_type_invariant(self);
        }
        sign_schnorr(digest, self.secret.as_slice())
    }
}

/// The words with which `Address::from_str` refuses a text, if it does.
pub uninterp spec fn address_refusal(text: Seq<char>) -> Option<Seq<char>>;

/// The address that `Address::require_network` makes of the address in a text, or the
/// words with which it refuses the network.
pub uninterp spec fn address_on_network(text: Seq<char>, network: Network) -> Result<
    AddressView,
    Seq<char>,
>;

/// `Address::from_str`, of which this gives the words of the refusal.
#[verifier::external_body]
fn refusal_of_address(text: &str) -> (r: Option<String>)
    ensures
        crate::psbt::option_view(r) == address_refusal(text@),
{
    bitcoin::Address::from_str(text).err().map(|e| e.to_string())
}

/// `Address::require_network` of the address in a text, the address given by its
/// `Display` and its script.
#[verifier::external_body]
fn require_network(text: &str, network: Network) -> (r: Result<Address, String>)
    requires
        address_refusal(text@) is None,
    ensures
        result_view(r) == address_on_network(text@, network),
{
    let network = match network {
        Network::Bitcoin => bitcoin::Network::Bitcoin,
        Network::Testnet => bitcoin::Network::Testnet,
        Network::Testnet4 => bitcoin::Network::Testnet4,
        Network::Signet => bitcoin::Network::Signet,
        Network::Regtest => bitcoin::Network::Regtest,
    };
    bitcoin::Address::from_str(text).unwrap().require_network(network)
        .map(|a| Address { text: a.to_string(), script_pubkey: a.script_pubkey().to_bytes() })
        .map_err(|e| e.to_string())
}

/// What reading a destination gives: the words before a refusal of the network are
/// `network_prefix`.
pub open spec fn parsed_address(
    text: Seq<char>,
    network: Network,
    network_prefix: Seq<char>,
) -> Result<AddressView, Seq<char>> {
    match address_refusal(text) {
        Some(words) => Err("Invalid address: "@ + words),
        None => match address_on_network(text, network) {
            Ok(address) => Ok(address),
            Err(words) => Err(network_prefix + words),
        },
    }
}

impl Address {
    fn parse_with(text: &str, network: Network, network_prefix: &str) -> (r: Result<
        Address,
        String,
    >)
        ensures
            result_view(r) == parsed_address(text@, network, network_prefix@),
    {
        match refusal_of_address(text) {
            Some(e) => Err(concat("Invalid address: ", e.as_str())),
            None => match require_network(text, network) {
                Ok(address) => Ok(address),
                Err(e) => Err(concat(network_prefix, e.as_str())),
            },
        }
    }

    /// Reads the destination of a payment on a network.
    pub fn parse(text: &str, network: Network) -> (r: Result<Address, String>)
        ensures
            result_view(r) == parsed_address(text@, network, "Invalid address: "@),
    {
        Address::parse_with(text, network, "Invalid address: ")
    }

    /// Reads the destination of a sweep on a network, which names a wrong network as
    /// the fault.
    pub fn parse_for_sweep(text: &str, network: Network) -> (r: Result<Address, String>)
        ensures
            result_view(r) == parsed_address(text@, network, "Invalid address for network: "@),
    {
        Address::parse_with(text, network, "Invalid address for network: ")
    }
}

} // verus!
