use btc_wallet::api::Utxo;
use btc_wallet::keys::Mnemonic;
use btc_wallet::network::Network;
use btc_wallet::sweep::{classify, tally, OrdinalClass, Sweep, SweepPolicy, Verdict};
use btc_wallet::tx::Address;
use btc_wallet::wallet::Wallet;

const PHRASE: &str = "abandon abandon abandon abandon abandon abandon abandon abandon abandon abandon abandon about";

fn utxo(value: u64) -> Utxo {
    Utxo {
        txid: "0a".repeat(32),
        vout: 4,
        value,
        status: None,
        has_inscription: false,
        rare_info: None,
    }
}

fn policy(include_inscribed: bool, include_rare: bool, min_value: u64) -> SweepPolicy {
    SweepPolicy { include_inscribed, include_rare, min_value }
}

#[test]
fn verdicts() {
    let p = policy(false, false, 500);
    assert!(matches!(p.judge(499, true, 0), Verdict::BelowMinimum));
    assert!(matches!(p.judge(501, true, 0), Verdict::Inscribed));
    assert!(matches!(p.judge(501, false, 0), Verdict::Included));
    match p.judge(600, false, 0) {
        Verdict::Rare { kind, description } => {
            assert_eq!(kind, "block");
            assert_eq!(description, "Block Founder - First sat of block 6");
        }
        other => panic!("{:?}", other),
    }
    assert!(matches!(p.judge(600, true, 0), Verdict::Inscribed));
    assert!(matches!(policy(true, false, 0).judge(501, true, 0), Verdict::Included));
    assert!(matches!(policy(true, false, 0).judge(600, true, 0), Verdict::Rare { .. }));
    assert!(matches!(policy(false, true, 0).judge(600, false, 0), Verdict::Included));
    assert!(matches!(policy(false, true, 0).judge(600, true, 0), Verdict::Inscribed));
    assert!(matches!(policy(true, true, 0).judge(0, true, 0), Verdict::Included));
    assert!(!p.wants_lookup(499));
    assert!(p.wants_lookup(500));
}

#[test]
fn gathering() {
    let sweep = Sweep::new(policy(false, false, 500));
    let (sweep, verdict) = sweep.consider(&utxo(10), false, 0);
    assert!(matches!(verdict, Verdict::BelowMinimum));
    let (sweep, verdict) = sweep.consider(&utxo(12_345), true, 0);
    assert!(matches!(verdict, Verdict::Inscribed));
    let (sweep, verdict) = sweep.consider(&utxo(12_300), false, 0);
    assert!(matches!(verdict, Verdict::Rare { .. }));
    assert_eq!(sweep.eligible().len(), 0);
    assert_eq!(sweep.total(), 0);
    assert_eq!(sweep.sweep_amount(), 0);
    let (sweep, verdict) = sweep.consider(&utxo(12_345), false, 0);
    assert!(matches!(verdict, Verdict::Included));
    let (sweep, verdict) = sweep.consider(&utxo(2_001), false, 0);
    assert!(matches!(verdict, Verdict::Included));
    assert_eq!(sweep.total(), 14_346);
    assert_eq!(sweep.sweep_amount(), 13_346);
    assert_eq!(sweep.eligible()[1].value, 2_001);
    assert_eq!(sweep.policy(), policy(false, false, 500));
}

#[test]
fn sweeping() {
    let w = Wallet::new(Mnemonic::parse(PHRASE).unwrap(), Network::Bitcoin).unwrap();
    let (sweep, _) = Sweep::new(policy(false, false, 0)).consider(&utxo(5_002), false, 0);
    let (sweep, _) = sweep.consider(&utxo(7_003), false, 0);
    let spend = sweep.spend(&w, w.get_address()).unwrap();
    assert_eq!(spend.signed, 2);
    let tx: bitcoin::Transaction =
        bitcoin::consensus::deserialize(&hex::decode(&spend.tx_hex).unwrap()).unwrap();
    assert_eq!(tx.output[0].value.to_sat(), 11_005);
    assert_eq!(tx.output.len(), 1);
    let empty = Sweep::new(policy(false, false, 0));
    assert_eq!(
        empty.spend(&w, w.get_address()).map(|_| ()),
        Err("Failed to create PSBT: Insufficient funds".to_string())
    );
}

#[test]
fn sweeping_what_the_fee_uses_up() {
    let w = Wallet::new(Mnemonic::parse(PHRASE).unwrap(), Network::Bitcoin).unwrap();
    let d = Address::parse("1A1zP1eP5QGefi2DMPTfTL5SLmv7DivfNa", Network::Bitcoin).unwrap();
    let outputs = |values: &[u64]| {
        let mut sweep = Sweep::new(policy(true, true, 0));
        for value in values {
            sweep = sweep.consider(&utxo(*value), false, 0).0;
        }
        sweep.spend(&w, &d).map(|spend| {
            let tx: bitcoin::Transaction =
                bitcoin::consensus::deserialize(&hex::decode(&spend.tx_hex).unwrap()).unwrap();
            assert_eq!(tx.output[0].script_pubkey.to_bytes(), d.script_pubkey);
            tx.output.iter().map(|o| o.value.to_sat()).collect::<Vec<u64>>()
        })
    };
    assert_eq!(outputs(&[901]), Ok(vec![0, 551]));
    assert_eq!(outputs(&[1_000]), Ok(vec![0, 650]));
    assert_eq!(outputs(&[896]), Ok(vec![0]));
    assert_eq!(outputs(&[350]), Ok(vec![0]));
    assert_eq!(outputs(&[500, 500]), Ok(vec![0]));
    assert_eq!(outputs(&[1_001]), Ok(vec![1]));
    let refused = Err("Failed to create PSBT: Insufficient funds".to_string());
    assert_eq!(outputs(&[349]), refused);
    assert_eq!(outputs(&[166; 6]), refused);
}

#[test]
fn sweeping_many_outputs() {
    let w = Wallet::new(Mnemonic::parse(PHRASE).unwrap(), Network::Bitcoin).unwrap();
    let mut sweep = Sweep::new(policy(false, false, 0));
    for _ in 0..9 {
        sweep = sweep.consider(&utxo(1_001), false, 0).0;
    }
    let spend = sweep.spend(&w, w.get_address()).unwrap();
    assert_eq!(spend.signed, 9);
    let tx: bitcoin::Transaction =
        bitcoin::consensus::deserialize(&hex::decode(&spend.tx_hex).unwrap()).unwrap();
    assert_eq!(tx.output.len(), 1);
    assert_eq!(tx.output[0].value.to_sat(), 9 * 1_001 - 1_000);
}

#[test]
fn classes() {
    assert!(matches!(classify(600, true, 0), OrdinalClass::Inscribed));
    assert!(matches!(classify(601, false, 0), OrdinalClass::Normal));
    match classify(1_555, false, 0) {
        OrdinalClass::Rare { kind, description } => {
            assert_eq!(kind, "collector");
            assert_eq!(description, "Collector Sat - Ends with 555");
        }
        other => panic!("{:?}", other),
    }
}

#[test]
fn tallies() {
    let t = tally(&vec![]);
    assert_eq!((t.inscribed, t.rare, t.normal, t.total), (0, 0, 0, 0));
    let classes = vec![
        classify(600, true, 0),
        classify(600, false, 0),
        classify(99, false, 0),
        classify(601, false, 0),
    ];
    let t = tally(&classes);
    assert_eq!((t.inscribed, t.rare, t.normal, t.total), (1, 2, 1, 4));
    assert_eq!(t.inscribed + t.rare + t.normal, t.total);
}
