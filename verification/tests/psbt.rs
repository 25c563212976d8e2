use base64::Engine;
use btc_wallet::keys::Mnemonic;
use btc_wallet::network::Network;
use btc_wallet::psbt::{parse_psbt, parse_psbt_from_bytes, serialize_psbt, Psbt};
use btc_wallet::psbt_file::{
    broadcast_psbt_file, load_psbt, load_psbt_text, prepare_broadcast, sign_psbt_file, split_lines,
    summarize_psbt, Broadcast, InputSummary,
};
use btc_wallet::send::create_send_psbt;
use btc_wallet::tx::Txid;
use btc_wallet::wallet::Wallet;

const PHRASE: &str = "abandon abandon abandon abandon abandon abandon abandon abandon abandon abandon abandon about";

fn wallet() -> Wallet {
    Wallet::new(Mnemonic::parse(PHRASE).unwrap(), Network::Bitcoin).unwrap()
}

fn payment(w: &Wallet) -> Psbt {
    let txid = Txid::parse(&"77".repeat(32)).unwrap();
    let utxos = vec![(txid, 1, 60_000, w.get_address().script_pubkey.clone())];
    create_send_psbt(&utxos, w.get_address(), 20_000, w.get_address(), w.network).unwrap()
}

fn binary(psbt: &Psbt) -> Vec<u8> {
    base64::engine::general_purpose::STANDARD.decode(serialize_psbt(psbt).unwrap()).unwrap()
}

fn script_of(size: usize) -> Psbt {
    let w = wallet();
    let txid = Txid::parse(&"77".repeat(32)).unwrap();
    let utxos = vec![(txid, 1, 60_000, vec![0; size]), (txid, 2, 60_000, vec![0; size])];
    create_send_psbt(&utxos, w.get_address(), 20_000, w.get_address(), w.network).unwrap()
}

#[test]
fn base64_psbt_round_trip() {
    let psbt = payment(&wallet());
    let text = serialize_psbt(&psbt).unwrap();
    assert!(text.starts_with("cHNidP8"));
    let read = parse_psbt(&text).unwrap();
    assert_eq!(read.inputs.len(), 1);
    assert_eq!(read.inputs[0].witness_utxo.as_ref().unwrap().value, 60_000);
    assert_eq!(read.unsigned_tx.outputs[0].value, 20_000);
    assert_eq!(serialize_psbt(&read).unwrap(), text);
}

#[test]
fn binary_psbt_round_trip() {
    let psbt = payment(&wallet());
    let bytes = binary(&psbt);
    let read = parse_psbt_from_bytes(&bytes).unwrap();
    assert_eq!(read.unsigned_tx.inputs[0].vout, 1);
    assert_eq!(read.origin, Some(bytes.clone()));
    assert_eq!(binary(&read), bytes);
}

#[test]
fn parse_errors() {
    let e = parse_psbt("not base64!").unwrap_err();
    assert!(e.starts_with("Failed to decode base64: "), "{}", e);
    let e = parse_psbt("cHNidP8").unwrap_err();
    assert!(e.starts_with("Failed to decode base64: "), "{}", e);
    let e = parse_psbt("AAAA").unwrap_err();
    assert!(e.starts_with("Failed to parse PSBT: "), "{}", e);
    let e = parse_psbt("").unwrap_err();
    assert!(e.starts_with("Failed to parse PSBT: "), "{}", e);
    let text = serialize_psbt(&payment(&wallet())).unwrap();
    let e = parse_psbt_from_bytes(text.as_bytes()).unwrap_err();
    assert!(e.starts_with("Failed to parse binary PSBT: "), "{}", e);
    let e = parse_psbt_from_bytes(b"psbt").unwrap_err();
    assert!(e.starts_with("Failed to parse binary PSBT: "), "{}", e);
}

#[test]
fn files_in_both_forms() {
    let psbt = payment(&wallet());
    let bytes = binary(&psbt);
    let text = serialize_psbt(&psbt).unwrap();
    assert_eq!(load_psbt(&bytes).unwrap().origin, Some(bytes.clone()));
    assert_eq!(load_psbt(text.as_bytes()).unwrap().origin, Some(bytes.clone()));
    let padded = format!(" \n\t{}\r\n\u{3000}", text);
    assert_eq!(load_psbt(padded.as_bytes()).unwrap().origin, Some(bytes.clone()));
    assert_eq!(load_psbt_text(padded.as_bytes()).unwrap().origin, Some(bytes.clone()));
    let e = load_psbt(b"psbt and more").unwrap_err();
    assert!(e.starts_with("Failed to parse binary PSBT: "), "{}", e);
    let e = load_psbt_text(&bytes).unwrap_err();
    assert!(e.starts_with("Failed to decode base64: "), "{}", e);
    let e = load_psbt(&[0xff, 0xfe]).unwrap_err();
    assert!(e.starts_with("Failed to decode base64: "), "{}", e);
    let e = load_psbt(&[]).unwrap_err();
    assert!(e.starts_with("Failed to parse PSBT: "), "{}", e);
}

#[test]
fn signing_a_file_and_broadcasting_it() {
    let w = wallet();
    let psbt = payment(&w);
    let signed = sign_psbt_file(&w, &binary(&psbt)).unwrap();
    assert_eq!(signed.signed, 1);
    let read = load_psbt(signed.psbt_base64.as_bytes()).unwrap();
    assert_eq!(read.inputs[0].final_script_witness.as_ref().unwrap()[0].len(), 64);
    assert!(read.inputs[0].tap_key_sig.is_none());
    let plan = broadcast_psbt_file(signed.psbt_base64.as_bytes()).unwrap();
    let hex = match plan {
        Broadcast::Ready(hex) => hex,
        other => panic!("{:?}", other),
    };
    let tx: bitcoin::Transaction =
        bitcoin::consensus::deserialize(&hex::decode(&hex).unwrap()).unwrap();
    assert_eq!(tx.output[0].value.to_sat(), 20_000);
    assert_eq!(tx.input[0].witness[0], read.inputs[0].final_script_witness.as_ref().unwrap()[0][..]);
}

#[test]
fn signing_a_bad_file() {
    let w = wallet();
    let e = sign_psbt_file(&w, b"AAAA").unwrap_err();
    assert!(e.starts_with("Failed to parse PSBT: "), "{}", e);
    let mut psbt = payment(&w);
    psbt.inputs[0].witness_utxo = None;
    let e = sign_psbt_file(&w, &binary(&psbt)).unwrap_err();
    assert_eq!(e, "No witness_utxo found in PSBT inputs");
}

#[test]
fn unsigned_files_are_not_broadcast() {
    let psbt = payment(&wallet());
    assert!(matches!(broadcast_psbt_file(&binary(&psbt)), Ok(Broadcast::NotSigned)));
    let e = broadcast_psbt_file(b"AAAA").unwrap_err();
    assert!(e.starts_with("Failed to parse PSBT: "), "{}", e);
}

#[test]
fn unknown_amounts_are_not_broadcast() {
    let w = wallet();
    let mut psbt = payment(&w);
    w.sign_psbt(&mut psbt).unwrap();
    psbt.inputs[0].witness_utxo = None;
    let e = prepare_broadcast(&psbt).unwrap_err();
    assert!(e.starts_with("Failed to extract tx: "), "{}", e);
}

#[test]
fn signed_but_not_final_is_ready() {
    let w = wallet();
    let mut psbt = payment(&w);
    w.sign_psbt(&mut psbt).unwrap();
    let hex = match prepare_broadcast(&psbt).unwrap() {
        Broadcast::Ready(hex) => hex,
        other => panic!("{:?}", other),
    };
    let tx: bitcoin::Transaction =
        bitcoin::consensus::deserialize(&hex::decode(&hex).unwrap()).unwrap();
    assert!(tx.input[0].witness.is_empty());
}

fn with_previous_transaction(vout: u32) -> Vec<u8> {
    let previous = bitcoin::Transaction {
        version: bitcoin::transaction::Version(2),
        lock_time: bitcoin::absolute::LockTime::ZERO,
        input: vec![bitcoin::TxIn::default()],
        output: vec![bitcoin::TxOut {
            value: bitcoin::Amount::from_sat(9_000),
            script_pubkey: bitcoin::ScriptBuf::new(),
        }],
    };
    let spending = bitcoin::Transaction {
        version: bitcoin::transaction::Version(2),
        lock_time: bitcoin::absolute::LockTime::ZERO,
        input: vec![bitcoin::TxIn {
            previous_output: bitcoin::OutPoint::new(previous.compute_txid(), vout),
            ..Default::default()
        }],
        output: vec![bitcoin::TxOut {
            value: bitcoin::Amount::from_sat(8_000),
            script_pubkey: bitcoin::ScriptBuf::new(),
        }],
    };
    let mut psbt = bitcoin::Psbt::from_unsigned_tx(spending).unwrap();
    psbt.inputs[0].non_witness_utxo = Some(previous);
    psbt.inputs[0].final_script_witness = Some(bitcoin::Witness::from_slice(&[vec![1, 2, 3]]));
    psbt.serialize()
}

#[test]
fn amounts_from_whole_transactions() {
    let psbt = load_psbt(&with_previous_transaction(0)).unwrap();
    assert_eq!(psbt.inputs[0].non_witness_values, Some(vec![9_000]));
    assert!(matches!(prepare_broadcast(&psbt), Ok(Broadcast::Ready(_))));
    let read = parse_psbt(&serialize_psbt(&psbt).unwrap()).unwrap();
    assert_eq!(read.inputs[0].non_witness_values, Some(vec![9_000]));
    assert_eq!(read.inputs[0].final_script_witness, Some(vec![vec![1, 2, 3]]));
}

#[test]
fn missing_outputs_are_reported() {
    let bytes = with_previous_transaction(1);
    assert!(matches!(broadcast_psbt_file(&bytes), Ok(Broadcast::MissingOutput)));
}

#[test]
fn summaries() {
    let w = wallet();
    let mut psbt = payment(&w);
    let s = summarize_psbt(&psbt);
    assert_eq!(s.inputs, vec![InputSummary::Witness { signed: false }]);
    assert_eq!(s.outputs, vec![20_000, 60_000 - 20_000 - 350]);
    w.sign_psbt(&mut psbt).unwrap();
    assert_eq!(summarize_psbt(&psbt).inputs, vec![InputSummary::Witness { signed: true }]);
    psbt.inputs[0].witness_utxo = None;
    assert_eq!(summarize_psbt(&psbt).inputs, vec![InputSummary::NonWitness]);
}

#[test]
fn lines_of_sixty_four() {
    assert!(split_lines("").is_empty());
    assert_eq!(split_lines("abc"), vec!["abc".to_string()]);
    let text = "x".repeat(64) + &"y".repeat(64) + "z";
    let lines = split_lines(&text);
    assert_eq!(lines, vec!["x".repeat(64), "y".repeat(64), "z".to_string()]);
    assert_eq!(split_lines(&"x".repeat(128)).len(), 2);
    assert_eq!(lines.concat(), text);
}

#[test]
fn limits_hold_for_each_value() {
    // A length of five bytes, an amount of eight, a length of five and the script.
    let psbt = script_of(4_000_000 - 18);
    let bytes = psbt.serialize();
    assert!(bytes.len() > 8_000_000 - 100);
    let read = parse_psbt_from_bytes(&bytes).unwrap();
    assert_eq!(read.inputs[1].witness_utxo.as_ref().unwrap().script_pubkey.len(), 3_999_982);
    assert!(parse_psbt_from_bytes(&script_of(4_000_000 - 17).serialize()).is_err());
}

#[test]
fn limit_of_a_witness() {
    let w = wallet();
    // A length of five bytes, the number of items, a length of five and the item.
    let mut psbt = payment(&w);
    psbt.inputs[0].final_script_witness = Some(vec![vec![0; 4_000_000 - 11]]);
    let read = parse_psbt_from_bytes(&psbt.serialize()).unwrap();
    assert_eq!(read.inputs[0].final_script_witness, psbt.inputs[0].final_script_witness);
    psbt.inputs[0].final_script_witness = Some(vec![vec![0; 4_000_000 - 10]]);
    assert!(parse_psbt_from_bytes(&psbt.serialize()).is_err());
}

#[test]
fn limit_of_the_global_fields() {
    let w = wallet();
    let mut psbt = payment(&w);
    let used = psbt.unsigned_tx.encode().len();
    let before = psbt.unsigned_tx.outputs[0].script_pubkey.len();
    // The length of the script then takes five bytes in place of one.
    let size = 4_000_000 - 3 - 5 - (used - before) - 4;
    psbt.unsigned_tx.outputs[0].script_pubkey = vec![0; size];
    assert_eq!(psbt.unsigned_tx.encode().len(), 3_999_992);
    let read = parse_psbt_from_bytes(&psbt.serialize()).unwrap();
    assert_eq!(read.unsigned_tx.outputs[0].script_pubkey.len(), size);
    psbt.unsigned_tx.outputs[0].script_pubkey = vec![0; size + 1];
    assert!(parse_psbt_from_bytes(&psbt.serialize()).is_err());
}

#[test]
fn psbt_of_a_transaction_without_inputs() {
    let mut psbt = payment(&wallet());
    psbt.unsigned_tx.inputs.clear();
    psbt.inputs.clear();
    let read = parse_psbt_from_bytes(&psbt.serialize()).unwrap();
    assert!(read.inputs.is_empty());
    assert_eq!(read.unsigned_tx.outputs.len(), 2);
    let used = psbt.unsigned_tx.encode().len();
    let before = psbt.unsigned_tx.outputs[0].script_pubkey.len();
    // The marker and the flag are not written.
    let size = 4_000_000 - 3 - 5 + 2 - (used - before) - 4;
    psbt.unsigned_tx.outputs[0].script_pubkey = vec![0; size];
    assert!(parse_psbt_from_bytes(&psbt.serialize()).is_ok());
    psbt.unsigned_tx.outputs[0].script_pubkey = vec![0; size + 1];
    assert!(parse_psbt_from_bytes(&psbt.serialize()).is_err());
}

#[test]
fn amounts_decide_over_files() {
    let w = wallet();
    let mut psbt = payment(&w);
    w.sign_psbt(&mut psbt).unwrap();
    assert!(matches!(broadcast_psbt_file(&binary(&psbt)), Ok(Broadcast::Ready(_))));
    psbt.inputs[0].witness_utxo.as_mut().unwrap().value = 100;
    let e = broadcast_psbt_file(&binary(&psbt)).unwrap_err();
    assert!(e.starts_with("Failed to extract tx: "), "{}", e);
    psbt.inputs[0].witness_utxo.as_mut().unwrap().value = 59_650 + 6_250 * (164 + 40);
    assert!(matches!(broadcast_psbt_file(&binary(&psbt)), Ok(Broadcast::Ready(_))));
    psbt.inputs[0].witness_utxo = None;
    let e = broadcast_psbt_file(&binary(&psbt)).unwrap_err();
    assert!(e.starts_with("Failed to extract tx: "), "{}", e);
}
