//! Laws of wallets: their keys, addresses, descriptors and files.

use crate::keys::{
    address_on_network, address_refusal, compressed_public_key, derived_key, is_p2tr, is_wallet_key, master_key,
    mnemonic_parsed, mnemonic_seed, p2tr_address, p2tr_output_key, parsed_address, path_indices,
    tap_tweaked, wallet_key, word_count, xonly_public_key, xpriv_secret, xpub_of, xpub_parsed,
    XpubView,
};
use crate::network::Network;
use crate::tx::AddressView;
use crate::wallet::{is_wallet_of, wallet_of, WalletView};
use crate::wallet_file::{json_member, network_label_text, wallet_in_file, wallet_members};
use vstd::prelude::*;

verus! {

/// The paths, coin types and names of the networks.
pub proof fn law_networks(network: Network)
    ensures
        network is Testnet || network is Signet || network is Regtest ==> network.path_text()
            == "m/86'/1'/0'/0/0"@ && network.coin_type_text() == "1"@ && network.coin_type_index()
            == 1,
        network is Bitcoin || network is Testnet4 ==> network.path_text() == "m/86'/0'/0'/0/0"@
            && network.coin_type_text() == "0"@ && network.coin_type_index() == 0,
        network.is_test_kind() <==> network != Network::Bitcoin,
        network is Bitcoin ==> network.name_text() == "bitcoin"@,
        network is Testnet ==> network.name_text() == "testnet"@,
        network is Testnet4 ==> network.name_text() == "testnet4"@,
        network is Signet ==> network.name_text() == "signet"@,
        network is Regtest ==> network.name_text() == "regtest"@,
{
}

/// The wallet of a mnemonic has the mnemonic and the network, the secret key in the child of
/// the master key along the BIP86 path, which the master key of the mnemonic's seed without
/// a passphrase has.
pub proof fn law_wallet_key(wallet: WalletView, mnemonic: Seq<char>, network: Network)
    requires
        is_wallet_of(wallet, mnemonic, network),
    ensures
        wallet.mnemonic == mnemonic,
        wallet.network == network,
        master_key(network != Network::Bitcoin, mnemonic_seed(mnemonic, Seq::empty())) matches Ok(
            master,
        ) && (derived_key(
            master,
            seq![
                0x8000_0056u32,
                if network is Testnet || network is Signet || network is Regtest {
                    0x8000_0001u32
                } else {
                    0x8000_0000u32
                },
                0x8000_0000u32,
                0u32,
                0u32,
            ],
        ) matches Ok(key) && key.len() == 78 && key[4] == 5 && wallet.secret == key.subrange(
            46,
            78,
        )),
{
    reveal_strlit("");
    assert(""@ =~= Seq::<char>::empty());
    let key = choose|key: Seq<u8>| #[trigger]
        is_wallet_key(network, mnemonic_seed(mnemonic, ""@), key) && wallet.secret
            == xpriv_secret(key);
    let master = master_key(network.is_test_kind(), mnemonic_seed(mnemonic, ""@))->Ok_0;
    assert(crate::keys::bip86_indices(network.coin_type_index()) =~= seq![
        0x8000_0056u32,
        if network is Testnet || network is Signet || network is Regtest {
            0x8000_0001u32
        } else {
            0x8000_0000u32
        },
        0x8000_0000u32,
        0u32,
        0u32,
    ]);
}

/// The address of the wallet of a mnemonic is the Taproot address of its secret key on its
/// network, and its extended public key is that of the derived key.
pub proof fn law_wallet_address(mnemonic: Seq<char>, network: Network)
    ensures
        wallet_of(mnemonic, network) matches Ok(wallet) ==> {
            &&& wallet.mnemonic == mnemonic
            &&& wallet.network == network
            &&& wallet.address == p2tr_address(xonly_public_key(wallet.secret), network)
            &&& path_indices(network.path_text()) matches Ok(path)
            &&& master_key(
                network != Network::Bitcoin,
                mnemonic_seed(mnemonic, Seq::empty()),
            ) matches Ok(master)
            &&& derived_key(master, path) matches Ok(key)
            &&& wallet.secret == key.subrange(46, 78)
            &&& wallet.xpub == xpub_of(key)
        },
{
    reveal_strlit("");
    assert(""@ =~= Seq::<char>::empty());
}

/// Why there is no wallet for a seed: the path cannot be read, or else there is no master
/// key, or else it cannot be derived from.
pub proof fn law_wallet_key_refusals(network: Network, seed: Seq<u8>)
    ensures
        path_indices(network.path_text()) matches Err(e) ==> wallet_key(network, seed) == Err::<
            Seq<u8>,
            Seq<char>,
        >("Invalid derivation path: "@ + e),
        path_indices(network.path_text()) is Ok ==> (master_key(
            network != Network::Bitcoin,
            seed,
        ) matches Err(e) ==> wallet_key(network, seed) == Err::<Seq<u8>, Seq<char>>(
            "Failed to create master key: "@ + e,
        )),
        path_indices(network.path_text()) matches Ok(path) ==> (master_key(
            network != Network::Bitcoin,
            seed,
        ) matches Ok(master) ==> match derived_key(master, path) {
            Ok(key) => wallet_key(network, seed) == Ok::<Seq<u8>, Seq<char>>(key),
            Err(e) => wallet_key(network, seed) == Err::<Seq<u8>, Seq<char>>(
                "Derivation failed: "@ + e,
            ),
        }),
{
}

/// A script that pays to a Taproot key: thirty-four bytes, two of them 51 and 20 in
/// hexadecimal and the others the key.
pub proof fn law_taproot_scripts(script: Seq<u8>, key: Seq<u8>)
    ensures
        is_p2tr(script) <==> (script.len() == 34 && script[0] == 0x51 && script[1] == 0x20),
        key.len() == 32 ==> is_p2tr(seq![0x51u8, 0x20] + key) && p2tr_output_key(
            seq![0x51u8, 0x20] + key,
        ) == key,
{
    if key.len() == 32 {
        assert((seq![0x51u8, 0x20] + key).subrange(2, 34) =~= key);
    }
}

/// The descriptor: `tr([`, the fingerprint, the coin type, `]`, the extended public key and
/// `/0/0/*)`, one behind the other.
pub proof fn law_descriptor(wallet: WalletView)
    ensures
        ({
            let text = wallet.descriptor();
            let f = wallet.xpub.fingerprint.len() as int;
            let x = wallet.xpub.text.len() as int;
            &&& text.len() == f + x + 13
            &&& text.subrange(0, 4) == seq!['t', 'r', '(', '[']
            &&& text.subrange(4, 4 + f) == wallet.xpub.fingerprint
            &&& text[4 + f] == (if wallet.network is Testnet || wallet.network is Signet
                || wallet.network is Regtest {
                '1'
            } else {
                '0'
            })
            &&& text[5 + f] == ']'
            &&& text.subrange(6 + f, 6 + f + x) == wallet.xpub.text
            &&& text.subrange(6 + f + x, 13 + f + x) == seq!['/', '0', '/', '0', '/', '*', ')']
        }),
{
    reveal_strlit("tr([");
    reveal_strlit("0");
    reveal_strlit("1");
    reveal_strlit("]");
    reveal_strlit("/0/0/*)");
    let text = wallet.descriptor();
    let f = wallet.xpub.fingerprint.len() as int;
    let x = wallet.xpub.text.len() as int;
    assert(text.subrange(0, 4) =~= seq!['t', 'r', '(', '[']);
    assert(text.subrange(4, 4 + f) =~= wallet.xpub.fingerprint);
    assert(text.subrange(6 + f, 6 + f + x) =~= wallet.xpub.text);
    assert(text.subrange(6 + f + x, 13 + f + x) =~= seq!['/', '0', '/', '0', '/', '*', ')']);
}

/// A destination is read in two steps: a text that is no address is refused for that,
/// whatever the network, and an address of another network is refused in the given words.
pub proof fn law_destination(text: Seq<char>, network: Network, network_prefix: Seq<char>)
    ensures
        address_refusal(text) matches Some(words) ==> parsed_address(text, network, network_prefix)
            == Err::<AddressView, Seq<char>>("Invalid address: "@ + words),
        address_refusal(text) is None ==> match address_on_network(text, network) {
            Ok(address) => parsed_address(text, network, network_prefix) == Ok::<
                AddressView,
                Seq<char>,
            >(address),
            Err(words) => parsed_address(text, network, network_prefix) == Err::<
                AddressView,
                Seq<char>,
            >(network_prefix + words),
        },
{
}

/// The wallet of a wallet file is that of the mnemonic in it, on the network that is asked
/// for; the other members of the file do not matter.
pub proof fn law_wallet_file(a: Seq<char>, b: Seq<char>, network: Network)
    ensures
        json_member(a, "mnemonic"@) == json_member(b, "mnemonic"@) ==> wallet_in_file(a, network)
            == wallet_in_file(b, network),
        json_member(a, "mnemonic"@) matches Ok(Some(text)) ==> (mnemonic_parsed(text) matches Ok(
            mnemonic,
        ) ==> wallet_in_file(a, network) == wallet_of(mnemonic, network)),
        json_member(a, "mnemonic"@) matches Ok(Some(text)) ==> (mnemonic_parsed(text) matches Err(e)
            ==> wallet_in_file(a, network) == Err::<WalletView, Seq<char>>(e)),
        json_member(a, "mnemonic"@) matches Ok(None) ==> wallet_in_file(a, network) == Err::<
            WalletView,
            Seq<char>,
        >("Missing mnemonic in wallet file"@),
        json_member(a, "mnemonic"@) matches Err(e) ==> wallet_in_file(a, network) == Err::<
            WalletView,
            Seq<char>,
        >(e),
{
}

/// What a wallet file is written from: the mnemonic, the kind of network and the address.
pub proof fn law_saved_members(wallet: WalletView, testnet: bool)
    ensures
        wallet_members(wallet, testnet).len() == 3,
        wallet_members(wallet, testnet).contains(("mnemonic"@, wallet.mnemonic)),
        wallet_members(wallet, testnet).contains(
            (
                "network"@,
                if testnet {
                    "testnet"@
                } else {
                    "mainnet"@
                },
            ),
        ),
        wallet_members(wallet, testnet).contains(("address"@, wallet.address.text)),
{
    let members = wallet_members(wallet, testnet);
    assert(members[0] == ("mnemonic"@, wallet.mnemonic));
    assert(members[1] == ("network"@, network_label_text(testnet)));
    assert(members[2] == ("address"@, wallet.address.text));
}

/// The number of words is one more than the number of blanks between them.
pub proof fn law_word_count(words: Seq<char>, more: Seq<char>)
    ensures
        word_count(words + seq![' '] + more) == word_count(words) + word_count(more),
{
    let blank = |c: char| c == ' ';
    Seq::filter_distributes_over_add(words + seq![' '], more, blank);
    Seq::filter_distributes_over_add(words, seq![' '], blank);
    reveal(Seq::filter);
    assert(seq![' '].drop_last() =~= Seq::<char>::empty());
    assert(seq![' '].filter(blank) =~= seq![' ']);
}

/// A text without blanks is one word.
pub proof fn law_one_word(word: Seq<char>)
    requires
        forall|i: int| 0 <= i < word.len() ==> #[trigger] word[i] != ' ',
    ensures
        word_count(word) == 1,
    decreases word.len(),
{
    reveal(Seq::filter);
    if word.len() > 0 {
        assert(word[word.len() - 1] != ' ');
        law_one_word(word.drop_last());
    }
}

/// What is known of the address and the extended public key of a wallet.
pub proof fn law_own_keys(wallet: WalletView)
    ensures
        wallet.wf() <==> wallet.address == p2tr_address(
            xonly_public_key(wallet.secret),
            wallet.network,
        ),
        wallet.has_own_xpub() ==> wallet.xpub.depth == 5 && wallet.xpub.fingerprint.len() == 8
            && wallet.xpub.public_key == compressed_public_key(wallet.secret) && xpub_parsed(
            wallet.xpub.text,
        ) == Ok::<XpubView, Seq<char>>(wallet.xpub),
        wallet.signing_key() == xonly_public_key(tap_tweaked(wallet.secret)),
        wallet.internal_key() == xonly_public_key(wallet.secret),
{
}

} // verus!
