use base64::Engine;
use bitcoin::secp256k1::{schnorr, Message, Secp256k1, XOnlyPublicKey};
use bitcoin::sighash::{Prevouts, SighashCache, TapSighashType};
use btc_wallet::keys::{Keypair, Mnemonic, Xpriv, Xpub};
use btc_wallet::network::Network;
use btc_wallet::psbt::{parse_psbt, serialize_psbt, Psbt};
use btc_wallet::send::create_send_psbt;
use btc_wallet::tx::{Address, Transaction, TxOut, Txid};
use btc_wallet::wallet::{sign_input, Wallet};

const PHRASE: &str = "abandon abandon abandon abandon abandon abandon abandon abandon abandon abandon abandon about";
const ADDRESS: &str = "bc1p5cyxnuxmeuwuvkwfem96lqzszd02n6xdcjrs20cac6yqjjwudpxqkedrcr";
const OUTPUT_KEY: &str = "a60869f0dbcf1dc659c9cecbaf8050135ea9e8cdc487053f1dc6880949dc684c";
const INTERNAL_KEY: &str = "cc8a4bc64d897bddc5fbc2f670f7a8ba0b386779106cf1223c6fc5d7cd6fc115";
const XPUB: &str = "xpub6H3W6JmYJXN49h5TfcVjLC3onS6uPeUTTJoVvRC8oG9vsTn2J8LwigLzq5tHbrwAzH9DGo6ThGUdWsqce8dGfwHVBxSbixjDADGGdzF7t2B";

fn wallet(network: Network) -> Wallet {
    Wallet::new(Mnemonic::parse(PHRASE).unwrap(), network).unwrap()
}

fn txid(byte: char) -> Txid {
    Txid::parse(&byte.to_string().repeat(64)).unwrap()
}

fn two_input_psbt(w: &Wallet) -> Psbt {
    let script = w.get_address().script_pubkey.clone();
    let utxos = vec![(txid('1'), 0, 70_000, script.clone()), (txid('2'), 3, 50_000, script)];
    create_send_psbt(&utxos, w.get_address(), 100_000, w.get_address(), w.network).unwrap()
}

#[test]
fn bip86_vector() {
    let w = wallet(Network::Bitcoin);
    assert_eq!(w.get_address().text, ADDRESS);
    assert_eq!(hex::encode(&w.get_address().script_pubkey), format!("5120{}", OUTPUT_KEY));
    assert_eq!(hex::encode(w.keypair.x_only_public_key()), INTERNAL_KEY);
    assert_eq!(w.get_xpub(), XPUB);
    assert_eq!(w.get_private_key_hex(), hex::encode(w.keypair.secret_bytes()));
    assert_eq!(w.get_private_key_hex().len(), 64);
    assert_eq!(w.mnemonic.phrase(), PHRASE);
}

#[test]
fn private_key_belongs_to_address() {
    let w = wallet(Network::Bitcoin);
    let secret = bitcoin::secp256k1::SecretKey::from_slice(w.keypair.secret_bytes()).unwrap();
    let (key, _) = secret.x_only_public_key(&Secp256k1::new());
    assert_eq!(key.to_string(), INTERNAL_KEY);
}

#[test]
fn seed_of_mnemonic() {
    let seed = Mnemonic::parse(PHRASE).unwrap().to_seed("TREZOR");
    assert_eq!(
        hex::encode(seed),
        "c55257c360c07c72029aebc1b53c05ed0362ada38ead3e3e9efa3708e53495531f09a6987599d18264c1e1c92f2cf141630c7a3c4ab7c81b2f001698e7463b04"
    );
}

#[test]
fn networks_have_their_own_keys() {
    let main = wallet(Network::Bitcoin);
    let test = wallet(Network::Testnet);
    let signet = wallet(Network::Signet);
    let regtest = wallet(Network::Regtest);
    let test4 = wallet(Network::Testnet4);
    assert!(test.get_address().text.starts_with("tb1p"));
    assert!(regtest.get_address().text.starts_with("bcrt1p"));
    assert_eq!(test.get_address().text, signet.get_address().text);
    assert_eq!(test.get_private_key_hex(), signet.get_private_key_hex());
    assert_eq!(test.get_private_key_hex(), regtest.get_private_key_hex());
    assert_eq!(test.get_xpub(), regtest.get_xpub());
    assert_eq!(test.get_address().script_pubkey, regtest.get_address().script_pubkey);
    assert_ne!(main.get_address().script_pubkey, test.get_address().script_pubkey);
    assert_eq!(test4.get_address().script_pubkey, main.get_address().script_pubkey);
    assert!(test4.get_address().text.starts_with("tb1p"));
    assert!(test.get_xpub().starts_with("tpub"));
}

#[test]
fn wallet_of_a_derived_key() {
    let seed = Mnemonic::parse(PHRASE).unwrap().to_seed("");
    let xpriv = Xpriv::from_seed(Network::Bitcoin, &seed).unwrap();
    let w = Wallet::from_xpriv(Mnemonic::parse(PHRASE).unwrap(), Network::Bitcoin, &xpriv);
    assert_eq!(w.get_address().text, ADDRESS);
    assert_eq!(xpriv.to_xpub().text, XPUB);
    assert_eq!(xpriv.to_keypair().secret_bytes(), w.keypair.secret_bytes());
}

#[test]
fn descriptors() {
    let w = wallet(Network::Bitcoin);
    let key: bitcoin::bip32::Xpub = XPUB.parse().unwrap();
    assert_eq!(w.xpub.fingerprint, key.fingerprint().to_string());
    assert_eq!(w.xpub.fingerprint.len(), 8);
    assert_eq!(w.get_descriptor(), format!("tr([{}0]{}/0/0/*)", key.fingerprint(), XPUB));
    let t = wallet(Network::Testnet);
    assert_eq!(
        t.get_descriptor(),
        format!("tr([{}1]{}/0/0/*)", t.xpub.fingerprint, t.get_xpub())
    );
    assert_ne!(w.get_descriptor(), t.get_descriptor());
}

#[test]
fn extended_public_key_is_that_of_the_address() {
    let w = wallet(Network::Bitcoin);
    let outside: bitcoin::bip32::Xpub = w.get_xpub().parse().unwrap();
    assert_eq!(outside.depth, 5);
    assert_eq!(w.xpub.depth, 5);
    assert_eq!(w.xpub.public_key, outside.public_key.serialize().to_vec());
    assert_eq!(w.xpub.public_key, w.keypair.public_key());
    assert_eq!(hex::encode(&w.keypair.public_key()[1..]), INTERNAL_KEY);
    let read = Xpub::parse(&w.get_xpub()).unwrap();
    assert_eq!(read.text, w.xpub.text);
    assert_eq!(read.fingerprint, w.xpub.fingerprint);
    assert_eq!(read.depth, w.xpub.depth);
    assert_eq!(read.public_key, w.xpub.public_key);
    let account = Xpub::parse(
        "xpub6BgBgsespWvERF3LHQu6CnqdvfEvtMcQjYrcRzx53QJjSxarj2afYWcLteoGVky7D3UKDP9QyrLprQ3VCECoY49yfdDEHGCtMMj92pReUsQ",
    )
    .unwrap();
    assert_eq!(account.depth, 3);
    assert!(Xpub::parse("xpub").is_err());
}

#[test]
fn generated_mnemonics() {
    let a = Wallet::generate_mnemonic();
    let b = Wallet::generate_mnemonic();
    assert_eq!(a.phrase().split(' ').count(), 24);
    assert!(Wallet::validate_mnemonic(a.phrase()));
    assert_ne!(a.phrase(), b.phrase());
}

#[test]
fn mnemonics_are_validated() {
    assert!(Wallet::validate_mnemonic(PHRASE));
    assert!(Wallet::validate_mnemonic(&format!("  {}  ", PHRASE.replace(' ', "   "))));
    assert!(!Wallet::validate_mnemonic(""));
    assert!(!Wallet::validate_mnemonic("abandon abandon abandon"));
    assert!(!Wallet::validate_mnemonic(&PHRASE.replace("about", "abandon")));
    assert!(!Wallet::validate_mnemonic(&PHRASE.replace("about", "bitcoinn")));
    let spaced = Mnemonic::parse(&PHRASE.replace(' ', "  ")).unwrap();
    assert_eq!(spaced.phrase(), PHRASE);
    assert_eq!(
        Mnemonic::parse("abandon").unwrap_err(),
        "mnemonic has an invalid word count: 1. Word count must be 12, 15, 18, 21, or 24"
    );
}

#[test]
fn signing_signs_every_taproot_input() {
    let w = wallet(Network::Bitcoin);
    let mut psbt = two_input_psbt(&w);
    assert_eq!(w.sign_psbt(&mut psbt), Ok(2));
    let secp = Secp256k1::verification_only();
    let key: XOnlyPublicKey = OUTPUT_KEY.parse().unwrap();
    let bytes = psbt_bytes(&psbt);
    let outside = bitcoin::Psbt::deserialize(&bytes).unwrap();
    let prevouts: Vec<bitcoin::TxOut> =
        outside.inputs.iter().map(|i| i.witness_utxo.clone().unwrap()).collect();
    for i in 0..2 {
        assert_eq!(hex::encode(psbt.inputs[i].tap_internal_key.as_ref().unwrap()), INTERNAL_KEY);
        let sig = psbt.inputs[i].tap_key_sig.as_ref().unwrap();
        assert_eq!(sig.len(), 64);
        let hash = SighashCache::new(&outside.unsigned_tx)
            .taproot_key_spend_signature_hash(i, &Prevouts::All(&prevouts), TapSighashType::Default)
            .unwrap();
        let msg = Message::from_digest(bitcoin::hashes::Hash::to_byte_array(hash));
        let sig = schnorr::Signature::from_slice(sig).unwrap();
        assert!(secp.verify_schnorr(&sig, &msg, &key).is_ok());
    }
    assert_eq!(w.sign_psbt(&mut psbt), Ok(2));
}

fn psbt_bytes(psbt: &Psbt) -> Vec<u8> {
    let text = serialize_psbt(psbt).unwrap();
    base64::engine::general_purpose::STANDARD.decode(text).unwrap()
}

#[test]
fn signing_keeps_an_internal_key() {
    let w = wallet(Network::Bitcoin);
    let other = wallet(Network::Testnet).keypair.x_only_public_key();
    let mut psbt = two_input_psbt(&w);
    psbt.inputs[1].tap_internal_key = Some(other.clone());
    assert_eq!(w.sign_psbt(&mut psbt), Ok(2));
    assert_eq!(psbt.inputs[1].tap_internal_key, Some(other));
}

#[test]
fn signing_needs_spent_outputs() {
    let w = wallet(Network::Bitcoin);
    let mut psbt = two_input_psbt(&w);
    psbt.inputs[0].witness_utxo = None;
    psbt.inputs[1].witness_utxo = None;
    assert_eq!(
        w.sign_psbt(&mut psbt),
        Err("No witness_utxo found in PSBT inputs".to_string())
    );
    assert!(psbt.inputs.iter().all(|i| i.tap_internal_key.is_none() && i.tap_key_sig.is_none()));
}

#[test]
fn signing_needs_all_spent_outputs() {
    let w = wallet(Network::Bitcoin);
    let mut psbt = two_input_psbt(&w);
    psbt.inputs[0].witness_utxo = None;
    let error = w.sign_psbt(&mut psbt).unwrap_err();
    assert!(error.starts_with("Sighash failed: "), "{}", error);
    assert!(error.len() > "Sighash failed: ".len());
    assert!(psbt.inputs[0].tap_internal_key.is_none());
    assert!(psbt.inputs[1].tap_internal_key.is_some());
    assert!(psbt.inputs[1].tap_key_sig.is_none());
}

#[test]
fn signing_skips_other_scripts() {
    let w = wallet(Network::Bitcoin);
    let mut psbt = two_input_psbt(&w);
    let mut script = vec![0x00, 0x14];
    script.extend_from_slice(&[7; 20]);
    psbt.inputs[0].witness_utxo = Some(TxOut { value: 70_000, script_pubkey: script.clone() });
    assert_eq!(w.sign_psbt(&mut psbt), Ok(1));
    assert!(psbt.inputs[0].tap_key_sig.is_none());
    assert!(psbt.inputs[0].tap_internal_key.is_none());
    psbt.inputs[1].witness_utxo = Some(TxOut { value: 50_000, script_pubkey: script });
    assert_eq!(w.sign_psbt(&mut psbt), Ok(0));
    psbt.inputs[0].witness_utxo = None;
    assert_eq!(w.sign_psbt(&mut psbt), Ok(0));
}

#[test]
fn signing_one_input() {
    let w = wallet(Network::Bitcoin);
    let tweaked: Keypair = w.keypair.tap_tweak();
    assert_eq!(hex::encode(tweaked.x_only_public_key()), OUTPUT_KEY);
    let key = w.keypair.x_only_public_key();
    let mut input = two_input_psbt(&w).inputs.remove(0);
    let refused = sign_input(&mut input, &key, &tweaked, Err("no digest".to_string()));
    assert_eq!(refused, Err("Sighash failed: no digest".to_string()));
    assert_eq!(input.tap_internal_key, Some(key.clone()));
    assert_eq!(input.tap_key_sig, None);
    assert_eq!(sign_input(&mut input, &key, &tweaked, Ok(vec![9; 32])), Ok(()));
    let sig = schnorr::Signature::from_slice(input.tap_key_sig.as_ref().unwrap()).unwrap();
    let xonly: XOnlyPublicKey = OUTPUT_KEY.parse().unwrap();
    let msg = Message::from_digest([9; 32]);
    assert!(Secp256k1::verification_only().verify_schnorr(&sig, &msg, &xonly).is_ok());
}

#[test]
fn finalizing_moves_the_signature() {
    let w = wallet(Network::Bitcoin);
    let mut psbt = two_input_psbt(&w);
    assert_eq!(w.finalize_psbt(&mut psbt), Ok(()));
    assert!(psbt.inputs.iter().all(|i| i.final_script_witness.is_none()));
    w.sign_psbt(&mut psbt).unwrap();
    let sig = psbt.inputs[1].tap_key_sig.clone().unwrap();
    assert_eq!(w.finalize_psbt(&mut psbt), Ok(()));
    assert_eq!(psbt.inputs[1].final_script_witness, Some(vec![sig.clone()]));
    assert_eq!(psbt.inputs[1].tap_key_sig, None);
    assert_eq!(psbt.inputs[1].tap_internal_key, None);
    assert_eq!(psbt.inputs[1].witness_utxo.as_ref().unwrap().value, 50_000);
    let once = serialize_psbt(&psbt).unwrap();
    assert_eq!(w.finalize_psbt(&mut psbt), Ok(()));
    assert_eq!(serialize_psbt(&psbt).unwrap(), once);
}

#[test]
fn extraction_gives_the_signed_transaction() {
    let w = wallet(Network::Bitcoin);
    let mut psbt = two_input_psbt(&w);
    w.sign_psbt(&mut psbt).unwrap();
    w.finalize_psbt(&mut psbt).unwrap();
    let tx = w.extract_tx(&psbt).unwrap();
    let outside: bitcoin::Transaction = bitcoin::consensus::deserialize(&tx.bytes).unwrap();
    assert_eq!(outside.output[0].value.to_sat(), 100_000);
    assert_eq!(outside.output[1].value.to_sat(), 120_000 - 100_000 - 500);
    assert_eq!(outside.input[1].previous_output.vout, 3);
    assert_eq!(outside.input[0].witness.len(), 1);
    assert_eq!(tx.unsigned_tx.outputs.len(), 2);
    assert_eq!(tx.witnesses[0], psbt.inputs[0].final_script_witness.clone().unwrap());
    let read = Transaction::decode(tx.bytes.clone()).unwrap();
    assert_eq!(read.witnesses, tx.witnesses);
    assert_eq!(read.unsigned_tx.outputs[1].value, tx.unsigned_tx.outputs[1].value);
    assert_eq!(read.unsigned_tx.inputs[0].txid, txid('1'));
}

#[test]
fn extraction_is_refused() {
    let w = wallet(Network::Bitcoin);
    let mut psbt = two_input_psbt(&w);
    psbt.inputs[0].witness_utxo = None;
    let error = w.extract_tx(&psbt).unwrap_err();
    assert!(error.starts_with("Failed to extract transaction: "), "{}", error);
    let mut psbt = two_input_psbt(&w);
    psbt.inputs[0].witness_utxo.as_mut().unwrap().value = 1;
    let error = w.extract_tx(&psbt).unwrap_err();
    assert!(error.starts_with("Failed to extract transaction: "), "{}", error);
    let mut psbt = two_input_psbt(&w);
    psbt.inputs[0].witness_utxo.as_mut().unwrap().value = 1_000_000_000_000;
    let error = w.extract_tx(&psbt).unwrap_err();
    assert!(error.starts_with("Failed to extract transaction: "), "{}", error);
}

#[test]
fn extraction_without_witnesses() {
    let w = wallet(Network::Bitcoin);
    let tx = w.extract_tx(&two_input_psbt(&w)).unwrap();
    assert!(tx.witnesses.iter().all(|items| items.is_empty()));
    let read = Transaction::decode(tx.bytes).unwrap();
    assert!(read.witnesses.iter().all(|items| items.is_empty()));
}

#[test]
fn addresses_are_read() {
    let a = Address::parse(ADDRESS, Network::Bitcoin).unwrap();
    assert_eq!(a.text, ADDRESS);
    assert_eq!(hex::encode(&a.script_pubkey), format!("5120{}", OUTPUT_KEY));
    let legacy = Address::parse("1A1zP1eP5QGefi2DMPTfTL5SLmv7DivfNa", Network::Bitcoin).unwrap();
    assert_eq!(
        hex::encode(&legacy.script_pubkey),
        "76a91462e907b15cbf27d5425399ebf6f0fb50ebb88f1888ac"
    );
    let upper = Address::parse(&ADDRESS.to_uppercase(), Network::Bitcoin).unwrap();
    assert_eq!(upper.text, ADDRESS);
}

#[test]
fn addresses_are_refused() {
    let bad = Address::parse("nonsense", Network::Bitcoin).unwrap_err();
    assert!(bad.starts_with("Invalid address: "), "{}", bad);
    let wrong = Address::parse(ADDRESS, Network::Testnet).unwrap_err();
    assert!(wrong.starts_with("Invalid address: "), "{}", wrong);
    let swept = Address::parse_for_sweep(ADDRESS, Network::Testnet).unwrap_err();
    assert!(swept.starts_with("Invalid address for network: "), "{}", swept);
    let bad = Address::parse_for_sweep("nonsense", Network::Bitcoin).unwrap_err();
    assert!(bad.starts_with("Invalid address: "), "{}", bad);
    assert_eq!(Address::parse_for_sweep(ADDRESS, Network::Bitcoin).unwrap().text, ADDRESS);
}

#[test]
fn signed_psbt_reads_back() {
    let w = wallet(Network::Bitcoin);
    let mut psbt = two_input_psbt(&w);
    w.sign_psbt(&mut psbt).unwrap();
    let read = parse_psbt(&serialize_psbt(&psbt).unwrap()).unwrap();
    assert_eq!(read.inputs[0].tap_key_sig, psbt.inputs[0].tap_key_sig);
    assert_eq!(read.inputs[1].tap_internal_key, psbt.inputs[1].tap_internal_key);
    assert_eq!(read.unsigned_tx.inputs[1].txid, txid('2'));
}
