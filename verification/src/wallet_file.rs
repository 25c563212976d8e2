//! The wallet file: a JSON object with the mnemonic, the network and the address.

use crate::keys::{is_p2tr, mnemonic_parsed, Mnemonic};
use crate::network::Network;
use crate::psbt::result_view;
use crate::wallet::{wallet_of, Wallet, WalletView};
use vstd::prelude::*;

verus! {

/// The text in a member of a JSON object, as `from_str` of the `serde_json` crate reads
/// it: nothing where the value is no object, the member is not there or it is no text;
/// or the words with which the crate refuses the whole.
pub uninterp spec fn json_member(content: Seq<char>, key: Seq<char>) -> Result<
    Option<Seq<char>>,
    Seq<char>,
>;

/// The JSON object whose members hold texts, as `to_string_pretty` of the
/// `serde_json` crate writes it.
pub uninterp spec fn json_object(
    members: Seq<(Seq<char>, Seq<char>)>,
) -> Seq<char>;

/// The views of names and texts.
pub open spec fn member_views(members: Seq<(String, String)>) -> Seq<(Seq<char>, Seq<char>)> {
    members.map_values(|m: (String, String)| (m.0@, m.1@))
}

/// The view of a text that may be missing, or of a refusal.
pub open spec fn member_view(r: Result<Option<String>, String>) -> Result<
    Option<Seq<char>>,
    Seq<char>,
> {
    match r {
        Ok(Some(text)) => Ok(Some(text@)),
        Ok(None) => Ok(None),
        Err(e) => Err(e@),
    }
}

/// Whether a JSON text has a member with a text.
pub open spec fn has_member(content: Seq<char>, key: Seq<char>, text: Seq<char>) -> bool {
    json_member(content, key) == Ok::<Option<Seq<char>>, Seq<char>>(Some(text))
}

/// Whether the names of members differ.
pub open spec fn distinct_names(members: Seq<(Seq<char>, Seq<char>)>) -> bool {
    forall|i: int, j: int| 0 <= i < j < members.len() ==> members[i].0 != members[j].0
}

/// `serde_json::from_str`, and of the value that it reads the text in one member.
#[verifier::external_body]
fn read_member(content: &str, key: &str) -> (r: Result<Option<String>, String>)
    ensures
        member_view(r) == json_member(content@, key@),
{
    let value = serde_json::from_str::<serde_json::Value>(content).map_err(|e| e.to_string())?;
    Ok(value[key].as_str().map(|s| s.to_owned()))
}

/// `serde_json::to_string_pretty` of an object whose members hold texts. What was
/// written reads back.
#[verifier::external_body]
fn write_object(members: Vec<(String, String)>) -> (content: String)
    requires
        distinct_names(member_views(members@)),
    ensures
        content@ == json_object(member_views(members@)),
        forall|i: int|
            0 <= i < members@.len() ==> has_member(
                content@,
                (#[trigger] members@[i]).0@,
                members@[i].1@,
            ),
{
    let object: serde_json::Map<String, serde_json::Value> = members.into_iter().map(|(k, v)| (k, serde_json::Value::String(v))).collect();
    serde_json::to_string_pretty(&object).unwrap()
}

/// The name of the network in the wallet file.
pub open spec fn network_label_text(testnet: bool) -> Seq<char> {
    if testnet {
        "testnet"@
    } else {
        "mainnet"@
    }
}

/// The name of the network in the wallet file.
pub fn network_label(testnet: bool) -> (label: &'static str)
    ensures
        label@ == network_label_text(testnet),
{
    if testnet {
        "testnet"
    } else {
        "mainnet"
    }
}

/// The members of the wallet file.
pub open spec fn wallet_members(wallet: WalletView, testnet: bool) -> Seq<(Seq<char>, Seq<char>)> {
    seq![
        ("mnemonic"@, wallet.mnemonic),
        ("network"@, network_label_text(testnet)),
        ("address"@, wallet.address.text),
    ]
}

/// The wallet that a wallet file holds. Its network is the one that is asked for, not
/// the one in the file.
pub open spec fn wallet_in_file(content: Seq<char>, network: Network) -> Result<
    WalletView,
    Seq<char>,
> {
    wallet_of_member(json_member(content, "mnemonic"@), network)
}

/// The wallet of the mnemonic that was read from a wallet file.
pub open spec fn wallet_of_member(
    member: Result<Option<Seq<char>>, Seq<char>>,
    network: Network,
) -> Result<WalletView, Seq<char>> {
    match member {
        Err(e) => Err(e),
        Ok(None) => Err("Missing mnemonic in wallet file"@),
        Ok(Some(text)) => match mnemonic_parsed(text) {
            Err(e) => Err(e),
            Ok(mnemonic) => wallet_of(mnemonic, network),
        },
    }
}

/// Writes the wallet file. What was written holds the wallet of its mnemonic, on
/// whatever network is asked for.
pub fn save_wallet(wallet: &Wallet, testnet: bool) -> (content: String)
    ensures
        content@ == json_object(wallet_members(wallet@, testnet)),
        has_member(content@, "network"@, network_label_text(testnet)),
        has_member(content@, "address"@, wallet@.address.text),
        forall|network: Network| #[trigger]
            wallet_in_file(content@, network) == wallet_of(wallet@.mnemonic, network),
{
    let mut members: Vec<(String, String)> = Vec::new();
    members.push(("mnemonic".to_owned(), wallet.mnemonic.phrase().to_owned()));
    members.push(("network".to_owned(), network_label(testnet).to_owned()));
    members.push(("address".to_owned(), wallet.get_address().text.clone()));
    let ghost made = members@;
    proof {
        reveal_strlit("mnemonic");
        reveal_strlit("network");
        reveal_strlit("address");
        assert("network"@[0] == 'n' && "address"@[0] == 'a' && "mnemonic"@[0] == 'm');
        assert(member_views(made) =~= wallet_members(wallet@, testnet));
    }
    let content = write_object(members);
    assert(has_member(content@, made[0].0@, made[0].1@));
    assert(has_member(content@, made[1].0@, made[1].1@));
    assert(has_member(content@, made[2].0@, made[2].1@));
    content
}

/// Reads the wallet in a wallet file.
pub fn load_wallet(content: &str, network: Network) -> (r: Result<Wallet, String>)
    ensures
        result_view(r) == wallet_in_file(content@, network),
        r matches Ok(wallet) ==> wallet@.wf() && wallet@.has_own_xpub() && is_p2tr(
            wallet@.address.script_pubkey,
        ),
{
    restore_wallet(read_member(content, "mnemonic"), network)
}

/// The wallet of the mnemonic that was read from a wallet file.
pub fn restore_wallet(member: Result<Option<String>, String>, network: Network) -> (r: Result<
    Wallet,
    String,
>)
    ensures
        result_view(r) == wallet_of_member(member_view(member), network),
        r matches Ok(wallet) ==> wallet@.wf() && wallet@.has_own_xpub() && is_p2tr(
            wallet@.address.script_pubkey,
        ),
{
    match member {
        Err(e) => Err(e),
        Ok(None) => Err("Missing mnemonic in wallet file".to_owned()),
        Ok(Some(text)) => match Mnemonic::parse(text.as_str()) {
            Err(e) => Err(e),
            Ok(mnemonic) => Wallet::new(mnemonic, network),
        },
    }
}

/// The wallet of a mnemonic that was typed in, unless it is none.
pub fn import_wallet(text: &str, network: Network) -> (r: Option<Result<Wallet, String>>)
    ensures
        match r {
            None => mnemonic_parsed(text@) is Err,
            Some(made) => mnemonic_parsed(text@) matches Ok(mnemonic) && result_view(made)
                == wallet_of(mnemonic, network) && (made matches Ok(wallet) ==> wallet@.wf()
                && wallet@.has_own_xpub() && is_p2tr(wallet@.address.script_pubkey)),
        },
{
    match Mnemonic::parse(text) {
        Err(_) => None,
        Ok(mnemonic) => Some(Wallet::new(mnemonic, network)),
    }
}

} // verus!
