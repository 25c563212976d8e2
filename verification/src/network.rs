//! The Bitcoin networks and what the wallet does differently on each.

use vstd::prelude::*;

verus! {

/// The BIP86 derivation path of the first receiving key on the main network.
pub const BIP86_MAINNET_PATH: &'static str = "m/86'/0'/0'/0/0";

/// The BIP86 derivation path of the first receiving key on a test network.
pub const BIP86_TESTNET_PATH: &'static str = "m/86'/1'/0'/0/0";

/// A Bitcoin network.
#[derive(Clone, Copy, Debug, PartialEq, Eq, Structural)]
pub enum Network {
    Bitcoin,
    Testnet,
    Testnet4,
    Signet,
    Regtest,
}

impl Network {
    /// Whether keys are derived with the coin type of the test networks. Testnet4
    /// is treated like the main network.
    pub open spec fn has_test_coin_type(self) -> bool {
        self is Testnet || self is Signet || self is Regtest
    }

    /// Whether extended keys are those of the test networks.
    pub open spec fn is_test_kind(self) -> bool {
        self !is Bitcoin
    }

    /// The coin type in the derivation path of the wallet's key.
    pub open spec fn coin_type_index(self) -> u32 {
        if self.has_test_coin_type() {
            1
        } else {
            0
        }
    }

    /// The derivation path of the wallet's key.
    pub open spec fn path_text(self) -> Seq<char> {
        if self.has_test_coin_type() {
            BIP86_TESTNET_PATH@
        } else {
            BIP86_MAINNET_PATH@
        }
    }

    /// The coin type that the wallet's descriptor shows.
    pub open spec fn coin_type_text(self) -> Seq<char> {
        if self.has_test_coin_type() {
            "1"@
        } else {
            "0"@
        }
    }

    /// The network that the `--testnet` switch selects.
    pub fn from_testnet_flag(testnet: bool) -> (network: Network)
        ensures
            network == if testnet {
                Network::Testnet
            } else {
                Network::Bitcoin
            },
    {
        if testnet {
            Network::Testnet
        } else {
            Network::Bitcoin
        }
    }

    /// The derivation path of the wallet's key.
    pub fn derivation_path(self) -> (path: &'static str)
        ensures
            path@ == self.path_text(),
    {
        match self {
            Network::Bitcoin => BIP86_MAINNET_PATH,
            Network::Testnet | Network::Signet | Network::Regtest => BIP86_TESTNET_PATH,
            Network::Testnet4 => BIP86_MAINNET_PATH,
        }
    }

    /// The coin type that the wallet's descriptor shows.
    pub fn coin_type(self) -> (digit: &'static str)
        ensures
            digit@ == self.coin_type_text(),
    {
        match self {
            Network::Bitcoin => "0",
            Network::Testnet | Network::Signet | Network::Regtest => "1",
            Network::Testnet4 => "0",
        }
    }

    /// The name of the network.
    pub open spec fn name_text(self) -> Seq<char> {
        match self {
            Network::Bitcoin => "bitcoin"@,
            Network::Testnet => "testnet"@,
            Network::Testnet4 => "testnet4"@,
            Network::Signet => "signet"@,
            Network::Regtest => "regtest"@,
        }
    }

    /// The name of the network.
    pub fn name(self) -> (name: &'static str)
        ensures
            name@ == self.name_text(),
    {
        match self {
            Network::Bitcoin => "bitcoin",
            Network::Testnet => "testnet",
            Network::Testnet4 => "testnet4",
            Network::Signet => "signet",
            Network::Regtest => "regtest",
        }
    }
}

} // verus!
