//! The block explorer: what is asked of it, what its answers mean, and what the wallet
//! knows of unspent outputs.

use crate::encoding::{hex_bytes, hex_decode, hex_refusal};
use crate::psbt::result_view;
use crate::text::{concat, decimal, to_decimal};
use crate::tx::{parsed_transaction, Transaction, TransactionView};
use crate::wallet::plain_result;
use vstd::prelude::*;
use vstd::string::*;

verus! {

/// The explorer of the main network.
pub const MAINNET_API: &'static str = "https://mempool.space/api";

/// The explorer of the test network.
pub const TESTNET_API: &'static str = "https://mempool.space/testnet/api";

/// An unspent output of the wallet.
#[derive(Clone, Debug)]
pub struct Utxo {
    pub txid: String,
    pub vout: u32,
    pub value: u64,
    pub status: Option<UtxoStatus>,
    /// Whether the output carries an inscription.
    pub has_inscription: bool,
    /// The kind and the description of the rare satoshi that the output counts as.
    pub rare_info: Option<(String, String)>,
}

/// Where in the chain an unspent output stands.
#[derive(Clone, Debug)]
pub struct UtxoStatus {
    pub confirmed: bool,
    pub block_height: Option<u64>,
    pub block_hash: Option<String>,
    pub block_time: Option<u64>,
}

/// What the explorer knows of an address.
#[derive(Clone, Debug)]
pub struct AddressInfo {
    pub address: String,
    pub chain_stats: ChainStats,
    pub mempool_stats: MempoolStats,
}

/// The outputs of an address that are in the chain.
#[derive(Clone, Copy, Debug)]
pub struct ChainStats {
    pub funded_txo_count: u64,
    pub spent_txo_count: u64,
    pub total_sats: u64,
}

/// The outputs of an address that wait for a block.
#[derive(Clone, Copy, Debug)]
pub struct MempoolStats {
    pub funded_txo_count: u64,
    pub spent_txo_count: u64,
    pub total_sats: u64,
}

/// What the explorer knows of the spending of an output.
#[derive(Clone, Debug)]
pub struct OutSpend {
    pub spent: bool,
    pub txid: Option<String>,
    pub vin: Option<u32>,
    pub status: Option<OutSpendStatus>,
    pub inscription: Option<Inscription>,
}

/// Where in the chain a spending stands.
#[derive(Clone, Copy, Debug)]
pub struct OutSpendStatus {
    pub confirmed: bool,
    pub block_height: Option<u64>,
}

/// An inscription.
#[derive(Clone, Debug)]
pub struct Inscription {
    pub id: String,
    pub number: i64,
}

/// What an HTTP request holds.
pub struct RequestView {
    pub post: bool,
    pub url: Seq<char>,
    pub body: Option<Seq<char>>,
    pub content_type: Option<Seq<char>>,
}

/// An HTTP request: a POST with a body or a GET.
#[derive(Clone, Debug)]
pub struct Request {
    pub post: bool,
    pub url: String,
    pub body: Option<String>,
    pub content_type: Option<String>,
}

impl View for Request {
    type V = RequestView;

    open spec fn view(&self) -> RequestView {
        RequestView {
            post: self.post,
            url: self.url@,
            body: crate::psbt::option_view(self.body),
            content_type: crate::psbt::option_view(self.content_type),
        }
    }
}

/// A GET request.
pub open spec fn get_request(url: Seq<char>) -> RequestView {
    RequestView { post: false, url, body: None, content_type: None }
}

fn get(url: String) -> (request: Request)
    ensures
        request@ == get_request(url@),
{
    Request { post: false, url, body: None, content_type: None }
}

/// What came of a request.
pub enum Reply<T> {
    /// The request failed, with a description of the failure.
    RequestFailed(String),
    /// The explorer answered with a status, and this is what came of reading the body.
    Answered { status: u16, body: Result<T, String> },
}

impl<T> Reply<T> {
    /// Whether the status is one that HTTP knows: a number of three digits.
    pub open spec fn wf(self) -> bool {
        self matches Reply::Answered { status, body } ==> 100 <= status <= 999
    }
}

/// Whether a status stands for success.
pub open spec fn is_success(status: u16) -> bool {
    200 <= status < 300
}

/// The text that the `Display` of `StatusCode` of the `reqwest` crate writes for a
/// status.
pub uninterp spec fn status_text(status: u16) -> Seq<char>;

/// The `Display` of `StatusCode`: the number, a blank, and the reason phrase of the
/// status.
#[verifier::external_body]
fn describe_status(status: u16) -> (text: String)
    requires
        100 <= status <= 999,
    ensures
        text@ == status_text(status),
        (decimal(status as nat) + seq![' ']).is_prefix_of(text@),
{
    reqwest::StatusCode::from_u16(status).unwrap().to_string()
}

/// What a reply amounts to, with the words that come before a failure to read the
/// body.
pub open spec fn reply_result<T>(reply: Reply<T>, body_prefix: Seq<char>) -> Result<
    T,
    Seq<char>,
> {
    match reply {
        Reply::RequestFailed(e) => Err("Request failed: "@ + e@),
        Reply::Answered { status, body } => if !is_success(status) {
            Err("API error: "@ + status_text(status))
        } else {
            match body {
                Ok(value) => Ok(value),
                Err(e) => Err(body_prefix + e@),
            }
        },
    }
}

fn read_reply<T>(reply: Reply<T>, body_prefix: &str) -> (r: Result<T, String>)
    requires
        reply.wf(),
    ensures
        plain_result(r) == reply_result(reply, body_prefix@),
{
    match reply {
        Reply::RequestFailed(e) => Err(concat("Request failed: ", e.as_str())),
        Reply::Answered { status, body } => if !(200 <= status && status < 300) {
            Err(concat("API error: ", describe_status(status).as_str()))
        } else {
            match body {
                Ok(value) => Ok(value),
                Err(e) => Err(concat(body_prefix, e.as_str())),
            }
        },
    }
}

/// What a transaction in hexadecimal reads as.
pub open spec fn transaction_of_hex(hex: Seq<char>) -> Result<TransactionView, Seq<char>> {
    match hex_bytes(hex) {
        None => Err("Failed to decode hex: "@ + hex_refusal(hex)),
        Some(bytes) => match parsed_transaction(bytes) {
            Ok(tx) => Ok(tx),
            Err(e) => Err("Failed to parse transaction: "@ + e),
        },
    }
}

/// The client of a block explorer.
#[derive(Clone, Debug)]
pub struct MempoolApi {
    base_url: String,
}

impl View for MempoolApi {
    type V = Seq<char>;

    closed spec fn view(&self) -> Seq<char> {
        self.base_url@
    }
}

impl MempoolApi {
    /// The client for a network.
    pub fn new(testnet: bool) -> (api: MempoolApi)
        ensures
            api@ == if testnet {
                TESTNET_API@
            } else {
                MAINNET_API@
            },
    {
        MempoolApi {
            base_url: if testnet {
                TESTNET_API.to_owned()
            } else {
                MAINNET_API.to_owned()
            },
        }
    }

    /// Asks for the unspent outputs of an address.
    pub fn utxos_request(&self, address: &str) -> (request: Request)
        ensures
            request@ == get_request(self@ + "/address/"@ + address@ + "/utxo"@),
    {
        let url = concat(self.base_url.as_str(), "/address/");
        let url = concat(url.as_str(), address);
        get(concat(url.as_str(), "/utxo"))
    }

    /// The unspent outputs that a reply brings.
    pub fn fetch_utxos(reply: Reply<Vec<Utxo>>) -> (r: Result<Vec<Utxo>, String>)
        requires
            reply.wf(),
        ensures
            plain_result(r) == reply_result(reply, "Failed to parse UTXOs: "@),
    {
        read_reply(reply, "Failed to parse UTXOs: ")
    }

    /// Asks for the fee estimates.
    pub fn fee_estimates_request(&self) -> (request: Request)
        ensures
            request@ == get_request(self@ + "/fees/recommended"@),
    {
        get(concat(self.base_url.as_str(), "/fees/recommended"))
    }

    /// The fee estimates that a reply brings.
    pub fn get_fee_estimates<T>(reply: Reply<T>) -> (r: Result<T, String>)
        requires
            reply.wf(),
        ensures
            plain_result(r) == reply_result(reply, "Failed to parse fees: "@),
    {
        read_reply(reply, "Failed to parse fees: ")
    }

    /// Hands a transaction in hexadecimal to the network.
    pub fn broadcast_request(&self, tx_hex: &str) -> (request: Request)
        ensures
            request@ == (RequestView {
                post: true,
                url: self@ + "/tx"@,
                body: Some(tx_hex@),
                content_type: Some("text/plain"@),
            }),
    {
        Request {
            post: true,
            url: concat(self.base_url.as_str(), "/tx"),
            body: Some(tx_hex.to_owned()),
            content_type: Some("text/plain".to_owned()),
        }
    }

    /// The identifier that a reply to a broadcast brings. A refusal carries the text of
    /// the explorer, as far as it could be read.
    pub fn broadcast_tx(reply: Reply<String>) -> (r: Result<String, String>)
        ensures
            result_view(r) == broadcast_result(reply),
    {
        match reply {
            Reply::RequestFailed(e) => Err(concat("Request failed: ", e.as_str())),
            Reply::Answered { status, body } => if !(200 <= status && status < 300) {
                match body {
                    Ok(error) => Err(concat("Broadcast failed: ", error.as_str())),
                    Err(_) => {
                        assert("Broadcast failed: "@ + Seq::<char>::empty()
                            =~= "Broadcast failed: "@);
                        Err("Broadcast failed: ".to_owned())
                    },
                }
            } else {
                match body {
                    Ok(txid) => Ok(txid),
                    Err(e) => Err(concat("Failed to read response: ", e.as_str())),
                }
            },
        }
    }

    /// Asks for a transaction.
    pub fn tx_request(&self, txid: &str) -> (request: Request)
        ensures
            request@ == get_request(self@ + "/tx/"@ + txid@),
    {
        let url = concat(self.base_url.as_str(), "/tx/");
        get(concat(url.as_str(), txid))
    }

    /// The transaction that a reply brings in hexadecimal.
    pub fn get_tx(reply: Reply<String>) -> (r: Result<Transaction, String>)
        requires
            reply.wf(),
        ensures
            result_view(r) == match reply_result(reply, "Failed to parse tx: "@) {
                Ok(hex) => transaction_of_hex(hex@),
                Err(e) => Err(e),
            },
    {
        match read_reply(reply, "Failed to parse tx: ") {
            Err(e) => Err(e),
            Ok(hex) => match hex_decode(hex.as_str()) {
                Err(e) => Err(concat("Failed to decode hex: ", e.as_str())),
                Ok(bytes) => match Transaction::decode(bytes) {
                    Err(e) => Err(concat("Failed to parse transaction: ", e.as_str())),
                    Ok(tx) => Ok(tx),
                },
            },
        }
    }

    /// Asks what is known of an address.
    pub fn address_info_request(&self, address: &str) -> (request: Request)
        ensures
            request@ == get_request(self@ + "/address/"@ + address@),
    {
        let url = concat(self.base_url.as_str(), "/address/");
        get(concat(url.as_str(), address))
    }

    /// What a reply says of an address.
    pub fn get_address_info(reply: Reply<AddressInfo>) -> (r: Result<AddressInfo, String>)
        requires
            reply.wf(),
        ensures
            plain_result(r) == reply_result(reply, "Failed to parse address info: "@),
    {
        read_reply(reply, "Failed to parse address info: ")
    }

    /// Asks for the spending of an output.
    pub fn outspend_request(&self, txid: &str, vout: u32) -> (request: Request)
        ensures
            request@ == get_request(
                self@ + "/tx/"@ + txid@ + "/outspend/"@ + decimal(vout as nat),
            ),
    {
        let url = concat(self.base_url.as_str(), "/tx/");
        let url = concat(url.as_str(), txid);
        let url = concat(url.as_str(), "/outspend/");
        get(concat(url.as_str(), to_decimal(vout as u64).as_str()))
    }

    /// Whether a reply about the spending of an output shows an inscription: only a
    /// failed request is an error, and an answer that cannot be used shows none.
    pub fn check_inscription(reply: Reply<OutSpend>) -> (r: Result<bool, String>)
        ensures
            plain_result(r) == inscription_result(reply),
    {
        match reply {
            Reply::RequestFailed(e) => Err(concat("Request failed: ", e.as_str())),
            Reply::Answered { status, body } => if !(200 <= status && status < 300) {
                Ok(false)
            } else {
                match body {
                    Ok(outspend) => Ok(outspend.inscription.is_some()),
                    Err(_) => Ok(false),
                }
            },
        }
    }

    /// Asks for the height of the chain.
    pub fn block_height_request(&self) -> (request: Request)
        ensures
            request@ == get_request(self@ + "/blocks/tip/height"@),
    {
        get(concat(self.base_url.as_str(), "/blocks/tip/height"))
    }

    /// The height that a reply brings.
    pub fn get_block_height(reply: Reply<u64>) -> (r: Result<u64, String>)
        requires
            reply.wf(),
        ensures
            plain_result(r) == reply_result(reply, "Failed to parse block height: "@),
    {
        read_reply(reply, "Failed to parse block height: ")
    }
}

/// What a reply to a broadcast amounts to.
pub open spec fn broadcast_result(reply: Reply<String>) -> Result<Seq<char>, Seq<char>> {
    match reply {
        Reply::RequestFailed(e) => Err("Request failed: "@ + e@),
        Reply::Answered { status, body } => match body {
            Ok(text) => if is_success(status) {
                Ok(text@)
            } else {
                Err("Broadcast failed: "@ + text@)
            },
            Err(e) => if is_success(status) {
                Err("Failed to read response: "@ + e@)
            } else {
                Err("Broadcast failed: "@)
            },
        },
    }
}

/// What a reply about the spending of an output says of an inscription.
pub open spec fn inscription_result(reply: Reply<OutSpend>) -> Result<bool, Seq<char>> {
    match reply {
        Reply::RequestFailed(e) => Err("Request failed: "@ + e@),
        Reply::Answered { status, body } => Ok(
            is_success(status) && (body matches Ok(outspend) && outspend.inscription is Some),
        ),
    }
}

/// The page of the explorer that shows a transaction.
pub fn transaction_link(testnet: bool, txid: &str) -> (url: String)
    ensures
        url@ == if testnet {
            "https://mempool.space/testnet/tx/"@ + txid@
        } else {
            "https://mempool.space/tx/"@ + txid@
        },
{
    if testnet {
        concat("https://mempool.space/testnet/tx/", txid)
    } else {
        concat("https://mempool.space/tx/", txid)
    }
}

impl Utxo {
    /// Notes what was found out about an output: an inscription, as far as the explorer
    /// could say, and the rare satoshi that its amount counts as.
    pub fn annotate(&mut self, inscription: Result<bool, String>, block_height: u64)
        ensures
            final(self).has_inscription == (inscription matches Ok(found) && found),
            pair_view(final(self).rare_info) == rare_sat(old(self).value as nat),
            final(self).txid == old(self).txid,
            final(self).vout == old(self).vout,
            final(self).value == old(self).value,
            final(self).status == old(self).status,
    {
        self.has_inscription = match inscription {
            Ok(found) => found,
            Err(_) => false,
        };
        self.rare_info = identify_rare_sat(self.value, block_height);
    }
}

/// The last three digits of a number of at least three digits.
pub open spec fn last_three(n: nat) -> Seq<char> {
    decimal(n).skip(decimal(n).len() - 3)
}

/// Whether a number ends with three equal digits.
pub open spec fn ends_repeating(n: nat) -> bool {
    decimal(n).len() >= 3 && forall|i: int|
        0 <= i < 3 ==> #[trigger] last_three(n)[i] == last_three(n)[0]
}

/// Whether a number is a one followed by at least four zeros.
pub open spec fn is_round(n: nat) -> bool {
    decimal(n).len() >= 5 && decimal(n)[0] == '1' && forall|i: int|
        1 <= i < decimal(n).len() ==> #[trigger] decimal(n)[i] == '0'
}

/// The kind and the description of a rare satoshi: the first kind that fits counts.
pub open spec fn rare_sat(n: nat) -> Option<(Seq<char>, Seq<char>)> {
    if n == 0 {
        Some(("genesis"@, "Genesis Sat - First satoshi ever created"@))
    } else if n % 100 == 0 {
        Some(("block"@, "Block Founder - First sat of block "@ + decimal(n / 100)))
    } else if n % 100 == 99 {
        Some(("block-end"@, "Block End - Last sat of block "@ + decimal(n / 100)))
    } else if ends_repeating(n) {
        Some(("collector"@, "Collector Sat - Ends with "@ + last_three(n)))
    } else if is_round(n) {
        Some(("round"@, "Round Sat - "@ + decimal(n) + " sats"@))
    } else {
        None
    }
}

/// The views of two texts, if there are any.
pub open spec fn pair_view(pair: Option<(String, String)>) -> Option<(Seq<char>, Seq<char>)> {
    match pair {
        Some((a, b)) => Some((a@, b@)),
        None => None,
    }
}

/// A satoshi with a round number is the first of a block, and that is what it counts
/// as: no satoshi is reported as round.
pub proof fn lemma_round_is_block_founder(n: nat)
    ensures
        is_round(n) ==> n % 100 == 0,
        rare_sat(n) matches Some((kind, text)) ==> kind != "round"@,
{
    reveal_strlit("genesis");
    reveal_strlit("block");
    reveal_strlit("block-end");
    reveal_strlit("collector");
    reveal_strlit("round");
    assert("genesis"@.len() != "round"@.len());
    assert("block"@[0] != "round"@[0]);
    if is_round(n) {
        reveal_with_fuel(decimal, 3);
        let d = decimal(n);
        assert(d.len() >= 5);
        assert(d[d.len() - 1] == '0');
        assert(d[d.len() - 2] == '0');
        assert(n >= 100);
        assert(d =~= decimal(n / 10).push(crate::text::digit_char(n % 10)));
        assert(decimal(n / 10) =~= decimal(n / 10 / 10).push(
            crate::text::digit_char(n / 10 % 10),
        ));
        assert(n % 10 == 0);
        assert(n / 10 % 10 == 0);
    }
}

/// What kind of rare satoshi a number counts as.
pub fn identify_rare_sat(sat_position: u64, _block_height: u64) -> (r: Option<(String, String)>)
    ensures
        pair_view(r) == rare_sat(sat_position as nat),
{
    if sat_position == 0 {
        return Some(
            ("genesis".to_owned(), "Genesis Sat - First satoshi ever created".to_owned()),
        );
    }
    let sats_per_block: u64 = 100;
    let sat_in_block: u64 = sat_position % sats_per_block;
    if sat_in_block == 0 {
        let block_num: u64 = sat_position / sats_per_block;
        let text = concat("Block Founder - First sat of block ", to_decimal(block_num).as_str());
        return Some(("block".to_owned(), text));
    }
    if sat_in_block == sats_per_block - 1 {
        let block_num: u64 = sat_position / sats_per_block;
        let text = concat("Block End - Last sat of block ", to_decimal(block_num).as_str());
        return Some(("block-end".to_owned(), text));
    }
    let sat_string = to_decimal(sat_position);
    let sat_str = sat_string.as_str();
    let n: usize = sat_str.unicode_len();
    if n >= 3 {
        let last = sat_str.substring_char(n - 3, n);
        assert(last@ =~= last_three(sat_position as nat));
        let first: char = last.get_char(0);
        if last.get_char(1) == first && last.get_char(2) == first {
            assert(ends_repeating(sat_position as nat));
            return Some(("collector".to_owned(), concat("Collector Sat - Ends with ", last)));
        }
        assert(!ends_repeating(sat_position as nat)) by {
            assert(last@[1] != last@[0] || last@[2] != last@[0]);
        }
    }
    if n >= 5 && sat_str.get_char(0) == '1' {
        let mut i: usize = 1;
        while i < n && sat_str.get_char(i) == '0'
            invariant
                1 <= i <= n,
                n == sat_str@.len(),
                forall|j: int| 1 <= j < i ==> sat_str@[j] == '0',
            decreases n - i,
        {
            i = i + 1;
        }
        if i == n {
            let text = concat("Round Sat - ", sat_str);
            return Some(("round".to_owned(), concat(text.as_str(), " sats")));
        }
    }
    None
}

} // verus!
