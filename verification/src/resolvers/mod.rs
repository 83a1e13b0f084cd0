//! Requests to the universal resolver contract, and what its replies mean.
use vstd::prelude::*;

pub mod reverse;
pub mod universal;

verus! {

/// A call of a contract.
#[derive(Debug)]
pub struct CallRequest {
    /// The address of the contract.
    pub to: [u8; 20],
    /// The selector of the function, and its arguments.
    pub data: Vec<u8>,
}

} // verus!
