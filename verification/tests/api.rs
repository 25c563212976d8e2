use btc_wallet::api::{
    identify_rare_sat, transaction_link, AddressInfo, ChainStats, Inscription, MempoolApi,
    MempoolStats, OutSpend, Reply, Utxo,
};

fn failed<T>() -> Reply<T> {
    Reply::RequestFailed("no route".to_string())
}

fn answered<T>(status: u16, value: T) -> Reply<T> {
    Reply::Answered { status, body: Ok(value) }
}

fn garbled<T>(status: u16) -> Reply<T> {
    Reply::Answered { status, body: Err("bad json".to_string()) }
}

fn outspend(inscribed: bool) -> OutSpend {
    OutSpend {
        spent: false,
        txid: None,
        vin: None,
        status: None,
        inscription: if inscribed {
            Some(Inscription { id: "x".to_string(), number: 4 })
        } else {
            None
        },
    }
}

fn rare(n: u64) -> Option<(String, String)> {
    identify_rare_sat(n, 0)
}

fn pair(a: &str, b: &str) -> Option<(String, String)> {
    Some((a.to_string(), b.to_string()))
}

#[test]
fn urls() {
    let main = MempoolApi::new(false);
    let test = MempoolApi::new(true);
    assert_eq!(main.utxos_request("abc").url, "https://mempool.space/api/address/abc/utxo");
    assert_eq!(test.utxos_request("abc").url, "https://mempool.space/testnet/api/address/abc/utxo");
    assert_eq!(main.fee_estimates_request().url, "https://mempool.space/api/fees/recommended");
    assert_eq!(main.tx_request("t").url, "https://mempool.space/api/tx/t");
    assert_eq!(main.address_info_request("a").url, "https://mempool.space/api/address/a");
    assert_eq!(main.outspend_request("t", 17).url, "https://mempool.space/api/tx/t/outspend/17");
    assert_eq!(main.block_height_request().url, "https://mempool.space/api/blocks/tip/height");
    assert!(!main.block_height_request().post);
    assert_eq!(main.block_height_request().body, None);
    let post = test.broadcast_request("beef");
    assert!(post.post);
    assert_eq!(post.url, "https://mempool.space/testnet/api/tx");
    assert_eq!(post.body, Some("beef".to_string()));
    assert_eq!(post.content_type, Some("text/plain".to_string()));
}

#[test]
fn replies_with_utxos() {
    let utxo = Utxo {
        txid: "t".to_string(),
        vout: 1,
        value: 2,
        status: None,
        has_inscription: false,
        rare_info: None,
    };
    let got = MempoolApi::fetch_utxos(answered(200, vec![utxo])).unwrap();
    assert_eq!(got[0].value, 2);
    assert_eq!(
        MempoolApi::fetch_utxos(failed()).unwrap_err(),
        "Request failed: no route"
    );
    assert_eq!(
        MempoolApi::fetch_utxos(answered(404, vec![])).unwrap_err(),
        "API error: 404 Not Found"
    );
    assert_eq!(
        MempoolApi::fetch_utxos(garbled(200)).unwrap_err(),
        "Failed to parse UTXOs: bad json"
    );
    assert_eq!(
        MempoolApi::fetch_utxos(garbled(429)).unwrap_err(),
        "API error: 429 Too Many Requests"
    );
}

#[test]
fn statuses() {
    assert_eq!(
        MempoolApi::get_block_height(answered(599, 1)).unwrap_err(),
        "API error: 599 <unknown status code>"
    );
    assert_eq!(
        MempoolApi::get_block_height(answered(100, 1)).unwrap_err(),
        "API error: 100 Continue"
    );
    assert_eq!(
        MempoolApi::get_block_height(answered(300, 1)).unwrap_err(),
        "API error: 300 Multiple Choices"
    );
    assert_eq!(MempoolApi::get_block_height(answered(299, 7)), Ok(7));
    assert_eq!(MempoolApi::get_block_height(answered(200, 8)), Ok(8));
    assert_eq!(
        MempoolApi::get_block_height(garbled(200)).unwrap_err(),
        "Failed to parse block height: bad json"
    );
}

#[test]
fn fee_estimates() {
    assert_eq!(MempoolApi::get_fee_estimates(answered(200, 1.5f64)), Ok(1.5));
    assert_eq!(
        MempoolApi::get_fee_estimates::<f64>(garbled(200)).unwrap_err(),
        "Failed to parse fees: bad json"
    );
}

#[test]
fn address_infos() {
    let info = AddressInfo {
        address: "a".to_string(),
        chain_stats: ChainStats { funded_txo_count: 3, spent_txo_count: 2, total_sats: 1 },
        mempool_stats: MempoolStats { funded_txo_count: 0, spent_txo_count: 0, total_sats: 0 },
    };
    assert_eq!(
        MempoolApi::get_address_info(answered(200, info)).unwrap().chain_stats.funded_txo_count,
        3
    );
    assert_eq!(
        MempoolApi::get_address_info(garbled(200)).unwrap_err(),
        "Failed to parse address info: bad json"
    );
}

#[test]
fn broadcasts() {
    let text = |s: &str| s.to_string();
    assert_eq!(MempoolApi::broadcast_tx(answered(200, text("id"))), Ok(text("id")));
    assert_eq!(
        MempoolApi::broadcast_tx(answered(400, text("bad fee"))),
        Err(text("Broadcast failed: bad fee"))
    );
    assert_eq!(MempoolApi::broadcast_tx(garbled(400)), Err(text("Broadcast failed: ")));
    assert_eq!(
        MempoolApi::broadcast_tx(garbled(200)),
        Err(text("Failed to read response: bad json"))
    );
    assert_eq!(MempoolApi::broadcast_tx(failed()), Err(text("Request failed: no route")));
}

const COINBASE: &str = "01000000010000000000000000000000000000000000000000000000000000000000000000ffffffff4d04ffff001d0104455468652054696d65732030332f4a616e2f32303039204368616e63656c6c6f72206f6e206272696e6b206f66207365636f6e64206261696c6f757420666f722062616e6b73ffffffff0100f2052a01000000434104678afdb0fe5548271967f1a67130b7105cd6a828e03909a67962e0ea1f61deb649f6bc3f4cef38c4f35504e51ec112de5c384df7ba0b8d578a4c702b6bf11d5fac00000000";

#[test]
fn transactions() {
    let tx = MempoolApi::get_tx(answered(200, COINBASE.to_string())).unwrap();
    assert_eq!(tx.unsigned_tx.outputs[0].value, 5_000_000_000);
    assert_eq!(tx.unsigned_tx.inputs[0].vout, u32::MAX);
    assert_eq!(hex::encode(&tx.bytes), COINBASE);
    assert_eq!(tx.witnesses, vec![Vec::<Vec<u8>>::new()]);
    let upper = MempoolApi::get_tx(answered(200, COINBASE.to_uppercase())).unwrap();
    assert_eq!(upper.bytes, tx.bytes);
    assert_eq!(
        MempoolApi::get_tx(answered(200, "abc".to_string())).unwrap_err(),
        "Failed to decode hex: Odd number of digits"
    );
    let e = MempoolApi::get_tx(answered(200, "zz".to_string())).unwrap_err();
    assert!(e.starts_with("Failed to decode hex: Invalid character"), "{}", e);
    let e = MempoolApi::get_tx(answered(200, "00".to_string())).unwrap_err();
    assert!(e.starts_with("Failed to parse transaction: "), "{}", e);
    let e = MempoolApi::get_tx(answered(200, format!("{}00", COINBASE))).unwrap_err();
    assert!(e.starts_with("Failed to parse transaction: "), "{}", e);
    assert_eq!(
        MempoolApi::get_tx(garbled(200)).unwrap_err(),
        "Failed to parse tx: bad json"
    );
    assert_eq!(
        MempoolApi::get_tx(garbled(500)).unwrap_err(),
        "API error: 500 Internal Server Error"
    );
}

#[test]
fn inscriptions() {
    assert_eq!(MempoolApi::check_inscription(answered(200, outspend(true))), Ok(true));
    assert_eq!(MempoolApi::check_inscription(answered(200, outspend(false))), Ok(false));
    assert_eq!(MempoolApi::check_inscription(answered(404, outspend(true))), Ok(false));
    assert_eq!(MempoolApi::check_inscription(garbled(200)), Ok(false));
    assert_eq!(
        MempoolApi::check_inscription(failed()),
        Err("Request failed: no route".to_string())
    );
}

#[test]
fn rare_sats() {
    assert_eq!(rare(0), pair("genesis", "Genesis Sat - First satoshi ever created"));
    assert_eq!(rare(100), pair("block", "Block Founder - First sat of block 1"));
    assert_eq!(rare(123_400), pair("block", "Block Founder - First sat of block 1234"));
    assert_eq!(rare(99), pair("block-end", "Block End - Last sat of block 0"));
    assert_eq!(rare(54_399), pair("block-end", "Block End - Last sat of block 543"));
    assert_eq!(rare(999), pair("block-end", "Block End - Last sat of block 9"));
    assert_eq!(rare(111), pair("collector", "Collector Sat - Ends with 111"));
    assert_eq!(rare(45_777), pair("collector", "Collector Sat - Ends with 777"));
    assert_eq!(rare(1), None);
    assert_eq!(rare(11), None);
    assert_eq!(rare(10_001), None);
    assert_eq!(rare(18_446_744_073_709_551_615), None);
}

#[test]
fn round_sats_are_block_founders() {
    let mut n: u64 = 10_000;
    while n < 1_000_000_000_000_000_000 {
        assert_eq!(rare(n).unwrap().0, "block");
        n *= 10;
    }
}

#[test]
fn links() {
    assert_eq!(transaction_link(false, "id"), "https://mempool.space/tx/id");
    assert_eq!(transaction_link(true, "id"), "https://mempool.space/testnet/tx/id");
}

#[test]
fn annotations() {
    let mut utxo = Utxo {
        txid: "t".to_string(),
        vout: 1,
        value: 500,
        status: None,
        has_inscription: true,
        rare_info: None,
    };
    utxo.annotate(Err("x".to_string()), 9);
    assert!(!utxo.has_inscription);
    assert_eq!(utxo.rare_info, pair("block", "Block Founder - First sat of block 5"));
    utxo.annotate(Ok(true), 9);
    assert!(utxo.has_inscription);
    utxo.annotate(Ok(false), 9);
    assert!(!utxo.has_inscription);
    assert_eq!(utxo.value, 500);
}
