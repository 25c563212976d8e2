//! A BIP86 Taproot wallet: key derivation, PSBT handling, coin selection and the
//! requests and replies of a block explorer, with everything that decides or
//! computes stated in contracts.

pub mod api;
pub mod coin_control;
pub mod encoding;
pub mod keys;
pub mod laws;
pub mod network;
pub mod psbt;
pub mod psbt_file;
pub mod send;
pub mod sweep;
pub mod text;
pub mod tx;
pub mod wallet;
pub mod wallet_file;
