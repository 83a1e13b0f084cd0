//! Coins registered in SLIP-0044.
use vstd::prelude::*;

use crate::utils::{decimal, decimal_digits};

verus! {

/// A coin registered in SLIP-0044.
#[derive(Debug, Clone, Hash, PartialEq, Eq)]
pub enum SLIP44 {
    Bitcoin,
    Ethereum,
    /// A coin without a name of its own here, by its index.
    Other(u32),
}

impl SLIP44 {
    /// The index of the coin.
    pub open spec fn index(self) -> u32 {
        match self {
            SLIP44::Bitcoin => 0,
            SLIP44::Ethereum => 60,
            SLIP44::Other(index) => index,
        }
    }

    /// The coin with an index.
    pub open spec fn of_index(index: u32) -> SLIP44 {
        if index == 0 {
            SLIP44::Bitcoin
        } else if index == 60 {
            SLIP44::Ethereum
        } else {
            SLIP44::Other(index)
        }
    }

    /// Whether a coin with a name of its own is not given by its index.
    pub open spec fn wf(self) -> bool {
        self == SLIP44::of_index(self.index())
    }

    /// The symbol of the coin, or its index where it has none.
    pub open spec fn name(self) -> Seq<char> {
        match self {
            SLIP44::Bitcoin => "btc"@,
            SLIP44::Ethereum => "eth"@,
            SLIP44::Other(index) => decimal_digits(index as nat),
        }
    }

    /// Returns the index of the coin.
    pub fn to_index(&self) -> (index: u32)
        ensures
            index == self.index(),
            self is Bitcoin ==> index == 0,
            self is Ethereum ==> index == 60,
            self matches SLIP44::Other(own) ==> index == own,
    {
        match self {
            SLIP44::Bitcoin => 0,
            SLIP44::Ethereum => 60,
            SLIP44::Other(index) => *index,
        }
    }

    /// Returns the symbol of the coin, or its index where it has none.
    pub fn to_string(&self) -> (name: String)
        ensures
            name@ == self.name(),
            self is Bitcoin ==> name@ == "btc"@,
            self is Ethereum ==> name@ == "eth"@,
            self matches SLIP44::Other(own) ==> name@ == decimal_digits(own as nat),
    {
        match self {
            SLIP44::Bitcoin => "btc".to_string(),
            SLIP44::Ethereum => "eth".to_string(),
            SLIP44::Other(index) => decimal(*index as u64),
        }
    }
}

impl From<u32> for SLIP44 {
    fn from(index: u32) -> (coin: Self)
        ensures
            coin == SLIP44::of_index(index),
            index == 0 <==> coin is Bitcoin,
            index == 60 <==> coin is Ethereum,
            coin matches SLIP44::Other(own) ==> own == index,
    {
        match index {
            0 => SLIP44::Bitcoin,
            60 => SLIP44::Ethereum,
            _ => SLIP44::Other(index),
        }
    }
}

impl vstd::std_specs::convert::FromSpecImpl<u32> for SLIP44 {
    open spec fn obeys_from_spec() -> bool {
        true
    }

    open spec fn from_spec(index: u32) -> Self {
        SLIP44::of_index(index)
    }
}

/// The coin with an index has that index.
pub proof fn law_coin_keeps_index(index: u32)
    ensures
        SLIP44::of_index(index).index() == index,
        SLIP44::of_index(index).wf(),
{
}

/// The indices that coins are registered under, and the symbols that they go by. No other
/// index has a coin with a name, and a coin with a name is not to be given by its
/// index.
pub proof fn law_coins_as_registered(index: u32)
    ensures
        SLIP44::Bitcoin.index() == 0 && SLIP44::Bitcoin.name() == "btc"@,
        SLIP44::Ethereum.index() == 60 && SLIP44::Ethereum.name() == "eth"@,
        SLIP44::of_index(index) is Bitcoin <==> index == 0,
        SLIP44::of_index(index) is Ethereum <==> index == 60,
        SLIP44::Other(index).index() == index,
        SLIP44::Other(index).name() == decimal_digits(index as nat),
        SLIP44::Other(index).wf() <==> index != 0 && index != 60,
        SLIP44::Bitcoin.wf() && SLIP44::Ethereum.wf(),
{
}

} // verus!
