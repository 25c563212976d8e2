//! What the library's operations promise, stated over their inputs and results: for every
//! operation, facts that hold of all its inputs, in terms of plain numbers, sequences and
//! the results of the outside crates.

pub mod explorer;
pub mod files;
pub mod numbers;
pub mod ordinals;
pub mod payments;
pub mod selection;
pub mod signing;
pub mod views;
pub mod wallets;
