//! Coin types: which chain a record of a name is for.
pub mod coins;
pub mod evm;
pub mod slip44;
