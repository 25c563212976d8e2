use btc_wallet::api::Utxo;
use btc_wallet::keys::Mnemonic;
use btc_wallet::network::Network;
use btc_wallet::psbt::{parse_psbt, serialize_psbt};
use btc_wallet::send::{
    balance, create_send_all_psbt, create_send_psbt, send_all_amount, spend_all_utxos, spend_utxos,
};
use btc_wallet::tx::{Address, Txid};
use btc_wallet::wallet::Wallet;

const PHRASE: &str = "abandon abandon abandon abandon abandon abandon abandon abandon abandon abandon abandon about";

fn wallet() -> Wallet {
    Wallet::new(Mnemonic::parse(PHRASE).unwrap(), Network::Bitcoin).unwrap()
}

fn destination() -> Address {
    Address::parse("1A1zP1eP5QGefi2DMPTfTL5SLmv7DivfNa", Network::Bitcoin).unwrap()
}

fn spent(values: &[u64]) -> Vec<(Txid, u32, u64, Vec<u8>)> {
    let script = wallet().get_address().script_pubkey.clone();
    let txid = Txid::parse(&"ab".repeat(32)).unwrap();
    values.iter().enumerate().map(|(i, v)| (txid, i as u32, *v, script.clone())).collect()
}

fn utxos(values: &[u64]) -> Vec<Utxo> {
    values
        .iter()
        .enumerate()
        .map(|(i, v)| Utxo {
            txid: "cd".repeat(32),
            vout: i as u32,
            value: *v,
            status: None,
            has_inscription: false,
            rare_info: None,
        })
        .collect()
}

#[test]
fn payment_with_change() {
    let w = wallet();
    let d = destination();
    let psbt =
        create_send_psbt(&spent(&[10_000]), &d, 5_000, w.get_address(), Network::Bitcoin).unwrap();
    assert_eq!(psbt.unsigned_tx.version, 2);
    assert_eq!(psbt.unsigned_tx.lock_time, 0);
    assert_eq!(psbt.unsigned_tx.inputs[0].sequence, u32::MAX);
    assert_eq!(psbt.unsigned_tx.inputs[0].vout, 0);
    assert_eq!(psbt.unsigned_tx.outputs.len(), 2);
    assert_eq!(psbt.unsigned_tx.outputs[0].value, 5_000);
    assert_eq!(psbt.unsigned_tx.outputs[0].script_pubkey, d.script_pubkey);
    assert_eq!(psbt.unsigned_tx.outputs[1].value, 10_000 - 5_000 - 350);
    assert_eq!(psbt.unsigned_tx.outputs[1].script_pubkey, w.get_address().script_pubkey);
    let utxo = psbt.inputs[0].witness_utxo.as_ref().unwrap();
    assert_eq!(utxo.value, 10_000);
    assert_eq!(utxo.script_pubkey, w.get_address().script_pubkey);
    let read = parse_psbt(&serialize_psbt(&psbt).unwrap()).unwrap();
    assert_eq!(read.unsigned_tx.outputs[1].value, 4_650);
    assert_eq!(read.inputs[0].witness_utxo.as_ref().unwrap().value, 10_000);
    assert!(read.inputs[0].tap_key_sig.is_none());
    assert_eq!(psbt.origin, None);
    let outside = bitcoin::Psbt::deserialize(&read.origin.unwrap()).unwrap();
    assert_eq!(outside.outputs.len(), 2);
}

#[test]
fn dust_change_goes_to_the_fee() {
    let w = wallet();
    let d = destination();
    let at = |total: u64| {
        create_send_psbt(&spent(&[total]), &d, 5_000, w.get_address(), Network::Bitcoin)
            .map(|p| p.unsigned_tx.outputs.len())
    };
    assert_eq!(at(5_000 + 350 + 546), Ok(1));
    assert_eq!(at(5_000 + 350 + 547), Ok(2));
    assert_eq!(at(5_000 + 350), Ok(1));
    assert_eq!(at(5_000 + 349), Err("Insufficient funds".to_string()));
}

#[test]
fn payment_without_inputs() {
    let w = wallet();
    let r = create_send_psbt(&[], &destination(), 0, w.get_address(), Network::Bitcoin);
    assert_eq!(r.map(|_| ()), Err("Insufficient funds".to_string()));
}

#[test]
fn fee_grows_with_inputs() {
    let w = wallet();
    let values = [1_000u64; 4];
    let pay = |amount: u64| {
        create_send_psbt(&spent(&values), &destination(), amount, w.get_address(), Network::Bitcoin)
    };
    assert!(pay(4_000 - 800).is_ok());
    assert!(pay(4_000 - 799).is_err());
}

#[test]
fn payment_conserves_money() {
    let w = wallet();
    for amount in [1u64, 546, 8_000, 9_000, 9_499, 9_500] {
        let p = create_send_psbt(
            &spent(&[4_000, 6_000]),
            &destination(),
            amount,
            w.get_address(),
            Network::Bitcoin,
        )
        .unwrap();
        let paid: u64 = p.unsigned_tx.outputs.iter().map(|o| o.value).sum();
        let fee = 10_000 - paid;
        assert!(500 <= fee && fee <= 500 + 546, "{}", fee);
    }
}

#[test]
fn spending_makes_a_transaction() {
    let w = wallet();
    let d = destination();
    let spend = spend_utxos(&w, &utxos(&[30_000, 20_000]), &d, 40_000).unwrap();
    assert_eq!(spend.signed, 2);
    let tx: bitcoin::Transaction =
        bitcoin::consensus::deserialize(&hex::decode(&spend.tx_hex).unwrap()).unwrap();
    assert_eq!(tx.input.len(), 2);
    assert_eq!(tx.input[0].previous_output.txid.to_string(), "cd".repeat(32));
    assert_eq!(tx.input[1].previous_output.vout, 1);
    assert!(tx.input.iter().all(|i| i.witness.len() == 1 && i.witness[0].len() == 64));
    assert_eq!(tx.output[0].value.to_sat(), 40_000);
    assert_eq!(tx.output[0].script_pubkey.to_bytes(), d.script_pubkey);
    assert_eq!(tx.output[1].value.to_sat(), 9_500);
}

#[test]
fn spending_too_much_is_refused() {
    let w = wallet();
    let r = spend_utxos(&w, &utxos(&[1_000]), &destination(), 900);
    assert_eq!(
        r.map(|_| ()),
        Err("Failed to create PSBT: Insufficient funds".to_string())
    );
}

#[test]
fn sending_everything() {
    assert_eq!(send_all_amount(0), 0);
    assert_eq!(send_all_amount(1_000), 0);
    assert_eq!(send_all_amount(1_001), 1);
    assert_eq!(send_all_amount(50_000), 49_000);
    let w = wallet();
    let d = destination();
    for n in [1usize, 2, 5, 6, 7, 20] {
        let values = vec![10_000u64; n];
        let total = balance(&utxos(&values)).unwrap();
        let spend = spend_all_utxos(&w, &utxos(&values), &d).unwrap();
        assert_eq!(spend.signed, n);
        let tx: bitcoin::Transaction =
            bitcoin::consensus::deserialize(&hex::decode(&spend.tx_hex).unwrap()).unwrap();
        assert_eq!(tx.input.len(), n);
        assert!(tx.input.iter().all(|i| i.witness.len() == 1 && i.witness[0].len() == 64));
        assert_eq!(tx.output.len(), 1);
        assert_eq!(tx.output[0].value.to_sat(), total - 1_000);
        assert_eq!(tx.output[0].script_pubkey.to_bytes(), d.script_pubkey);
    }
}

#[test]
fn sending_everything_needs_more_than_the_fee() {
    let d = destination();
    let psbt = create_send_all_psbt(&spent(&[600, 401]), &d).unwrap();
    assert_eq!(psbt.unsigned_tx.outputs.len(), 1);
    assert_eq!(psbt.unsigned_tx.outputs[0].value, 1);
    assert_eq!(psbt.unsigned_tx.inputs[1].vout, 1);
    assert_eq!(psbt.inputs[0].witness_utxo.as_ref().unwrap().value, 600);
    for values in [vec![], vec![1_000], vec![400, 600]] {
        let r = create_send_all_psbt(&spent(&values), &d);
        assert_eq!(r.map(|_| ()), Err("Not enough balance for fee".to_string()));
    }
    let r = spend_all_utxos(&wallet(), &utxos(&[1_000]), &d);
    assert_eq!(
        r.map(|_| ()),
        Err("Failed to create PSBT: Not enough balance for fee".to_string())
    );
}

#[test]
fn balances() {
    assert_eq!(balance(&utxos(&[])), Some(0));
    assert_eq!(balance(&utxos(&[5, 7])), Some(12));
    assert_eq!(balance(&utxos(&[u64::MAX, 0])), Some(u64::MAX));
    assert_eq!(balance(&utxos(&[u64::MAX, 1])), None);
}

#[test]
fn transaction_identifiers() {
    let text = format!("01{}", "00".repeat(31));
    let id = Txid::parse(&text).unwrap();
    assert_eq!(id.bytes[31], 1);
    assert_eq!(id.bytes[0], 0);
    assert_eq!(Txid::parse(&"AB".repeat(32)), Txid::parse(&"ab".repeat(32)));
    assert!(Txid::parse("ab").is_none());
    assert!(Txid::parse(&"zz".repeat(32)).is_none());
    assert!(Txid::parse(&"ab".repeat(33)).is_none());
}

#[test]
fn wallet_without_taproot_address_signs_nothing() {
    let mut w = wallet();
    w.address = destination();
    let spend = spend_utxos(&w, &utxos(&[30_000]), &destination(), 20_000).unwrap();
    assert_eq!(spend.signed, 0);
}
