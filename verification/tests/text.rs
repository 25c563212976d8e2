use btc_wallet::network::{Network, BIP86_MAINNET_PATH, BIP86_TESTNET_PATH};
use btc_wallet::text::{parse_index, same_text, show_amount, to_decimal, trim};

#[test]
fn decimals() {
    assert_eq!(to_decimal(0), "0");
    assert_eq!(to_decimal(10), "10");
    assert_eq!(to_decimal(u64::MAX), u64::MAX.to_string());
}

#[test]
fn amounts() {
    assert_eq!(show_amount(1_234, true), "1234 sats");
    assert_eq!(show_amount(0, false), "0.00000000 BTC");
    assert_eq!(show_amount(1_234, false), "0.00001234 BTC");
    assert_eq!(show_amount(100_000_000, false), "1.00000000 BTC");
    assert_eq!(show_amount(2_100_000_050_000_007, false), "21000000.50000007 BTC");
}

#[test]
fn trimming() {
    for s in ["", " ", " a ", "a b", "\t\n x\u{a0}", "\u{2003}y\u{3000}", "\u{200b}z"] {
        assert_eq!(trim(s), s.trim());
    }
}

#[test]
fn indices() {
    for s in ["", "+", "0", "7", "+12", "-1", "1a", "18446744073709551615", "18446744073709551616"] {
        assert_eq!(parse_index(s), s.parse::<usize>().ok());
    }
}

#[test]
fn same_texts() {
    assert!(same_text("a", "a"));
    assert!(!same_text("a", "b"));
}

#[test]
fn network_paths() {
    assert_eq!(Network::Bitcoin.derivation_path(), BIP86_MAINNET_PATH);
    assert_eq!(Network::Testnet.derivation_path(), BIP86_TESTNET_PATH);
    assert_eq!(Network::Signet.derivation_path(), "m/86'/1'/0'/0/0");
    assert_eq!(Network::Regtest.coin_type(), "1");
    assert_eq!(Network::Testnet4.coin_type(), "0");
    assert_eq!(Network::Testnet4.derivation_path(), "m/86'/0'/0'/0/0");
    assert_eq!(Network::from_testnet_flag(true), Network::Testnet);
    assert_eq!(Network::from_testnet_flag(false), Network::Bitcoin);
    for (network, outside) in [
        (Network::Bitcoin, bitcoin::Network::Bitcoin),
        (Network::Testnet, bitcoin::Network::Testnet),
        (Network::Testnet4, bitcoin::Network::Testnet4),
        (Network::Signet, bitcoin::Network::Signet),
        (Network::Regtest, bitcoin::Network::Regtest),
    ] {
        assert_eq!(network.name(), outside.to_string());
    }
}
