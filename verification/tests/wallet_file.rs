use btc_wallet::keys::Mnemonic;
use btc_wallet::network::Network;
use btc_wallet::wallet::Wallet;
use btc_wallet::wallet_file::{
    import_wallet, load_wallet, network_label, restore_wallet, save_wallet,
};

const PHRASE: &str = "abandon abandon abandon abandon abandon abandon abandon abandon abandon abandon abandon about";

#[test]
fn saved_wallets_load() {
    for network in [Network::Bitcoin, Network::Testnet] {
        let w = Wallet::new(Mnemonic::parse(PHRASE).unwrap(), network).unwrap();
        let content = save_wallet(&w, network == Network::Testnet);
        let read = load_wallet(&content, network).unwrap();
        assert_eq!(read.get_address().text, w.get_address().text);
        assert_eq!(read.get_private_key_hex(), w.get_private_key_hex());
        assert_eq!(read.mnemonic.phrase(), PHRASE);
    }
}

#[test]
fn saved_form() {
    let w = Wallet::new(Mnemonic::parse(PHRASE).unwrap(), Network::Bitcoin).unwrap();
    let expected = format!(
        "{{\n  \"address\": \"{}\",\n  \"mnemonic\": \"{}\",\n  \"network\": \"mainnet\"\n}}",
        w.get_address().text,
        PHRASE
    );
    assert_eq!(save_wallet(&w, false), expected);
    let value: serde_json::Value = serde_json::from_str(&save_wallet(&w, true)).unwrap();
    assert_eq!(value["network"], "testnet");
}

#[test]
fn network_in_the_file_is_not_used() {
    let w = Wallet::new(Mnemonic::parse(PHRASE).unwrap(), Network::Bitcoin).unwrap();
    let content = save_wallet(&w, true);
    let read = load_wallet(&content, Network::Bitcoin).unwrap();
    assert_eq!(read.get_address().text, w.get_address().text);
}

#[test]
fn bad_wallet_files() {
    let load = |content: &str| load_wallet(content, Network::Bitcoin).map(|_| ()).unwrap_err();
    assert_eq!(load("{}"), "Missing mnemonic in wallet file");
    assert_eq!(load("[]"), "Missing mnemonic in wallet file");
    assert_eq!(load("{\"mnemonic\": 5}"), "Missing mnemonic in wallet file");
    assert_eq!(load(""), "EOF while parsing a value at line 1 column 0");
    assert_eq!(
        load("{\"mnemonic\": \"abandon\"}"),
        Mnemonic::parse("abandon").unwrap_err()
    );
}

#[test]
fn restoring() {
    let e = restore_wallet(Ok(None), Network::Bitcoin).map(|_| ()).unwrap_err();
    assert_eq!(e, "Missing mnemonic in wallet file");
    let e = restore_wallet(Err("broken".to_string()), Network::Bitcoin).map(|_| ()).unwrap_err();
    assert_eq!(e, "broken");
    let w = restore_wallet(Ok(Some(PHRASE.to_string())), Network::Testnet).unwrap();
    assert_eq!(w.network, Network::Testnet);
}

#[test]
fn importing() {
    assert!(import_wallet("no words", Network::Bitcoin).is_none());
    let w = import_wallet(&PHRASE.replace(' ', "\n"), Network::Bitcoin).unwrap().unwrap();
    assert_eq!(w.mnemonic.phrase(), PHRASE);
}

#[test]
fn labels() {
    assert_eq!(network_label(true), "testnet");
    assert_eq!(network_label(false), "mainnet");
}
