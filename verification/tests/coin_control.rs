use btc_wallet::api::{Utxo, UtxoStatus};
use btc_wallet::coin_control::{CoinControl, Step};
use btc_wallet::keys::Mnemonic;
use btc_wallet::network::Network;
use btc_wallet::wallet::Wallet;

const PHRASE: &str = "abandon abandon abandon abandon abandon abandon abandon abandon abandon abandon abandon about";

fn utxo(vout: u32, value: u64, has_inscription: bool, rare: bool) -> Utxo {
    Utxo {
        txid: "ef".repeat(32),
        vout,
        value,
        status: Some(UtxoStatus {
            confirmed: true,
            block_height: Some(5),
            block_hash: Some("h".to_string()),
            block_time: None,
        }),
        has_inscription,
        rare_info: if rare { Some(("k".to_string(), "d".to_string())) } else { None },
    }
}

fn control(amount: u64, send_all: bool) -> CoinControl {
    let utxos = vec![
        utxo(0, 1_000, false, false),
        utxo(1, 2_000, true, false),
        utxo(2, 4_000, false, true),
    ];
    CoinControl::new(utxos, amount, send_all).unwrap()
}

fn selection(c: &CoinControl) -> Vec<bool> {
    (0..c.utxos().len()).map(|i| c.is_selected(i)).collect()
}

#[test]
fn nothing_to_choose_from() {
    let e = CoinControl::new(vec![], 5, false).unwrap_err();
    assert_eq!(e, "No UTXOs available");
}

#[test]
fn everything_is_selected_at_first() {
    let c = control(5_000, false);
    assert_eq!(selection(&c), vec![true, true, true]);
    assert_eq!(c.current(), 0);
    let o = c.overview();
    assert_eq!(o.count, 3);
    assert_eq!(o.total, 7_000);
    assert_eq!(o.send_amount, 5_000);
    assert!(o.sufficient);
}

#[test]
fn letters_select() {
    let mut c = control(5_000, false);
    assert_eq!(c.handle("n\n"), Step::Continue);
    assert_eq!(selection(&c), vec![false, false, false]);
    assert_eq!(c.handle(" R "), Step::Continue);
    assert_eq!(selection(&c), vec![false, true, true]);
    assert_eq!(c.handle("A"), Step::Continue);
    assert_eq!(selection(&c), vec![true, true, true]);
    assert_eq!(c.handle("N"), Step::Continue);
    assert_eq!(c.handle("a"), Step::Continue);
    assert_eq!(c.handle("r"), Step::Continue);
    assert_eq!(selection(&c), vec![false, true, true]);
    assert_eq!(c.current(), 0);
}

#[test]
fn numbers_toggle() {
    let mut c = control(5_000, false);
    assert_eq!(c.handle("2\n"), Step::Continue);
    assert_eq!(selection(&c), vec![true, false, true]);
    assert_eq!(c.current(), 1);
    assert_eq!(c.handle("+3"), Step::Continue);
    assert_eq!(selection(&c), vec![true, false, false]);
    assert_eq!(c.current(), 2);
    c.handle("2");
    c.handle("3");
    assert_eq!(selection(&c), vec![true, true, true]);
    for line in ["0", "4", "-1", "x", "1 2", "99999999999999999999999", "+", "aa"] {
        assert_eq!(c.handle(line), Step::Continue);
        assert_eq!(selection(&c), vec![true, true, true]);
        assert_eq!(c.current(), 2);
    }
    assert_eq!(c.handle("001"), Step::Continue);
    assert_eq!(c.current(), 0);
}

#[test]
fn quitting() {
    let mut c = control(5_000, false);
    assert_eq!(c.handle("q\n"), Step::Cancelled);
    assert_eq!(c.handle("Q"), Step::Cancelled);
    assert_eq!(selection(&c), vec![true, true, true]);
}

#[test]
fn confirming_an_amount() {
    let mut c = control(5_000, false);
    assert_eq!(c.handle("\n"), Step::Send { amount: 5_000 });
    c.handle("3");
    assert_eq!(c.handle(""), Step::BelowAmount { selected: 3_000, amount: 5_000 });
    assert!(!c.overview().sufficient);
    c.handle("n");
    assert_eq!(c.handle("  "), Step::NothingSelected);
    let mut zero = control(0, false);
    assert_eq!(zero.handle(""), Step::NotEnoughForFee);
}

#[test]
fn confirming_everything() {
    let mut c = control(0, true);
    assert_eq!(c.overview().send_amount, 6_000);
    assert_eq!(c.handle(""), Step::Send { amount: 6_000 });
    c.handle("n");
    c.handle("1");
    assert_eq!(c.handle(""), Step::NotEnoughForFee);
    assert_eq!(c.overview().send_amount, 0);
}

#[test]
fn selected_outputs_are_copies() {
    let mut c = control(1, false);
    c.handle("1");
    let chosen = c.selected_utxos();
    assert_eq!(chosen.len(), 2);
    assert_eq!(chosen[0].vout, 1);
    assert_eq!(chosen[1].value, 4_000);
    assert_eq!(chosen[1].rare_info, Some(("k".to_string(), "d".to_string())));
    assert_eq!(chosen[0].status.as_ref().unwrap().block_hash, Some("h".to_string()));
    assert_eq!(chosen[0].txid, "ef".repeat(32));
}

#[test]
fn short_outpoints() {
    assert_eq!(utxo(12, 1, false, false).short_outpoint(), "efefefef:12");
    let mut u = utxo(0, 1, false, false);
    u.txid = "äöü?xyz".to_string();
    assert_eq!(u.short_outpoint(), "äöü?x:0");
}

#[test]
fn spending_the_selection() {
    let w = Wallet::new(Mnemonic::parse(PHRASE).unwrap(), Network::Bitcoin).unwrap();
    let mut c = control(1_500, false);
    c.handle("1");
    c.handle("3");
    assert_eq!(c.handle(""), Step::Send { amount: 1_500 });
    let spend = c.spend(&w, w.get_address()).unwrap();
    assert_eq!(spend.signed, 1);
    let tx: bitcoin::Transaction =
        bitcoin::consensus::deserialize(&hex::decode(&spend.tx_hex).unwrap()).unwrap();
    assert_eq!(tx.input.len(), 1);
    assert_eq!(tx.input[0].previous_output.vout, 1);
    assert_eq!(tx.output.len(), 1);
    assert_eq!(tx.output[0].value.to_sat(), 1_500);
}

#[test]
fn spending_everything_selected() {
    let w = Wallet::new(Mnemonic::parse(PHRASE).unwrap(), Network::Bitcoin).unwrap();
    let values = [3_000u64, 1_000, 2_000, 4_000, 5_000, 6_000, 7_000];
    let utxos = values.iter().enumerate().map(|(i, v)| utxo(i as u32, *v, false, false)).collect();
    let mut c = CoinControl::new(utxos, 0, true).unwrap();
    c.handle("2");
    assert_eq!(c.handle(""), Step::Send { amount: 26_000 });
    let spend = c.spend(&w, w.get_address()).unwrap();
    assert_eq!(spend.signed, 6);
    let tx: bitcoin::Transaction =
        bitcoin::consensus::deserialize(&hex::decode(&spend.tx_hex).unwrap()).unwrap();
    assert_eq!(tx.output.len(), 1);
    assert_eq!(tx.output[0].value.to_sat(), 26_000);
    c.handle("n");
    c.handle("1");
    assert_eq!(c.handle(""), Step::Send { amount: 2_000 });
    let spend = c.spend(&w, w.get_address()).unwrap();
    let tx: bitcoin::Transaction =
        bitcoin::consensus::deserialize(&hex::decode(&spend.tx_hex).unwrap()).unwrap();
    assert_eq!(tx.output.len(), 1);
    assert_eq!(tx.output[0].value.to_sat(), 2_000);
}
