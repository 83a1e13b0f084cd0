//! Resolving names of the Ethereum Name Service through the universal resolver contract:
//! what to ask the contract for the records of a name or for the primary name of an
//! address, and what its replies mean. Replies are decoded on machines with 64-bit addresses
//! only, since the ABI coder can overflow on others.
pub mod abi;
pub mod cointype;
pub mod error;
pub mod resolvers;
pub mod utils;
