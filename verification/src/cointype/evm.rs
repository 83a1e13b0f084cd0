//! Chains that run the Ethereum virtual machine.
use vstd::prelude::*;

use crate::utils::{decimal, decimal_digits};

verus! {

/// A chain that runs the Ethereum virtual machine.
#[derive(Debug, Clone, Hash, PartialEq, Eq)]
pub enum ChainId {
    Ethereum,
    Optimism,
    Gnosis,
    Polygon,
    Base,
    ArbitrumOne,
    Celo,
    Linea,
    Scroll,
    /// A chain without a name of its own here, by its number.
    Other(u64),
}

impl ChainId {
    /// The number of the chain.
    pub open spec fn number(self) -> u64 {
        match self {
            ChainId::Ethereum => 1,
            ChainId::Optimism => 10,
            ChainId::Gnosis => 100,
            ChainId::Polygon => 137,
            ChainId::Base => 8453,
            ChainId::ArbitrumOne => 42161,
            ChainId::Celo => 42220,
            ChainId::Linea => 59144,
            ChainId::Scroll => 534352,
            ChainId::Other(number) => number,
        }
    }

    /// The chain with a number.
    pub open spec fn of_number(number: u64) -> ChainId {
        if number == 1 {
            ChainId::Ethereum
        } else if number == 10 {
            ChainId::Optimism
        } else if number == 100 {
            ChainId::Gnosis
        } else if number == 137 {
            ChainId::Polygon
        } else if number == 8453 {
            ChainId::Base
        } else if number == 42161 {
            ChainId::ArbitrumOne
        } else if number == 42220 {
            ChainId::Celo
        } else if number == 59144 {
            ChainId::Linea
        } else if number == 534352 {
            ChainId::Scroll
        } else {
            ChainId::Other(number)
        }
    }

    /// Whether a chain with a name of its own is not given by its number.
    pub open spec fn wf(self) -> bool {
        self == ChainId::of_number(self.number())
    }

    /// The short name of the chain, or its number where it has none.
    pub open spec fn name(self) -> Seq<char> {
        match self {
            ChainId::Ethereum => "eth"@,
            ChainId::Optimism => "op"@,
            ChainId::Gnosis => "gno"@,
            ChainId::Polygon => "matic"@,
            ChainId::Base => "base"@,
            ChainId::ArbitrumOne => "arb1"@,
            ChainId::Celo => "celo"@,
            ChainId::Linea => "linea"@,
            ChainId::Scroll => "scr"@,
            ChainId::Other(number) => decimal_digits(number as nat),
        }
    }

    /// Returns the number of the chain.
    pub fn to_number(&self) -> (number: u64)
        ensures
            number == self.number(),
            self is Ethereum ==> number == 1,
            self is Optimism ==> number == 10,
            self is Gnosis ==> number == 100,
            self is Polygon ==> number == 137,
            self is Base ==> number == 8453,
            self is ArbitrumOne ==> number == 42161,
            self is Celo ==> number == 42220,
            self is Linea ==> number == 59144,
            self is Scroll ==> number == 534352,
            self matches ChainId::Other(own) ==> number == own,
    {
        match self {
            ChainId::Ethereum => 1,
            ChainId::Optimism => 10,
            ChainId::Gnosis => 100,
            ChainId::Polygon => 137,
            ChainId::Base => 8453,
            ChainId::ArbitrumOne => 42161,
            ChainId::Celo => 42220,
            ChainId::Linea => 59144,
            ChainId::Scroll => 534352,
            ChainId::Other(number) => *number,
        }
    }

    /// Returns the coin type of the chain, as ENSIP-11 assigns it: the number of the chain
    /// with bit 31 set.
    pub fn as_ensip11(&self) -> (coin_type: u64)
        ensures
            coin_type == self.number() | 0x8000_0000,
            self is Ethereum ==> coin_type == 2147483649,
            self is Optimism ==> coin_type == 2147483658,
            self is Gnosis ==> coin_type == 2147483748,
            self is Polygon ==> coin_type == 2147483785,
            self is Base ==> coin_type == 2147492101,
            self is ArbitrumOne ==> coin_type == 2147525809,
            self is Celo ==> coin_type == 2147525868,
            self is Linea ==> coin_type == 2147542792,
            self is Scroll ==> coin_type == 2148018000,
            self matches ChainId::Other(own) ==> coin_type == own | 0x8000_0000,
            self matches ChainId::Other(own) ==> coin_type == if (own / 0x8000_0000) % 2 == 1 {
                own as int
            } else {
                own + 0x8000_0000
            },
    {
        proof {
            let own = self.number();
            let flagged = own | 0x8000_0000;
            assert(flagged == if (own / 0x8000_0000) % 2 == 1 {
                own as int
            } else {
                own + 0x8000_0000
            }) by (bit_vector)
                requires
                    flagged == own | 0x8000_0000,
            ;
            assert(1u64 | 0x8000_0000 == 2147483649) by (bit_vector);
            assert(10u64 | 0x8000_0000 == 2147483658) by (bit_vector);
            assert(100u64 | 0x8000_0000 == 2147483748) by (bit_vector);
            assert(137u64 | 0x8000_0000 == 2147483785) by (bit_vector);
            assert(8453u64 | 0x8000_0000 == 2147492101) by (bit_vector);
            assert(42161u64 | 0x8000_0000 == 2147525809) by (bit_vector);
            assert(42220u64 | 0x8000_0000 == 2147525868) by (bit_vector);
            assert(59144u64 | 0x8000_0000 == 2147542792) by (bit_vector);
            assert(534352u64 | 0x8000_0000 == 2148018000) by (bit_vector);
        }
        self.to_number() | 0x8000_0000
    }

    /// Returns the short name of the chain, or its number where it has none.
    pub fn to_string(&self) -> (name: String)
        ensures
            name@ == self.name(),
            self is Ethereum ==> name@ == "eth"@,
            self is Optimism ==> name@ == "op"@,
            self is Gnosis ==> name@ == "gno"@,
            self is Polygon ==> name@ == "matic"@,
            self is Base ==> name@ == "base"@,
            self is ArbitrumOne ==> name@ == "arb1"@,
            self is Celo ==> name@ == "celo"@,
            self is Linea ==> name@ == "linea"@,
            self is Scroll ==> name@ == "scr"@,
            self matches ChainId::Other(own) ==> name@ == decimal_digits(own as nat),
    {
        match self {
            ChainId::Ethereum => "eth".to_string(),
            ChainId::Optimism => "op".to_string(),
            ChainId::Gnosis => "gno".to_string(),
            ChainId::Polygon => "matic".to_string(),
            ChainId::Base => "base".to_string(),
            ChainId::ArbitrumOne => "arb1".to_string(),
            ChainId::Celo => "celo".to_string(),
            ChainId::Linea => "linea".to_string(),
            ChainId::Scroll => "scr".to_string(),
            ChainId::Other(number) => decimal(*number),
        }
    }
}

impl From<u64> for ChainId {
    fn from(number: u64) -> (chain: Self)
        ensures
            chain == ChainId::of_number(number),
            number == 1 <==> chain is Ethereum,
            number == 10 <==> chain is Optimism,
            number == 100 <==> chain is Gnosis,
            number == 137 <==> chain is Polygon,
            number == 8453 <==> chain is Base,
            number == 42161 <==> chain is ArbitrumOne,
            number == 42220 <==> chain is Celo,
            number == 59144 <==> chain is Linea,
            number == 534352 <==> chain is Scroll,
            chain matches ChainId::Other(own) ==> own == number,
    {
        match number {
            1 => ChainId::Ethereum,
            10 => ChainId::Optimism,
            100 => ChainId::Gnosis,
            137 => ChainId::Polygon,
            8453 => ChainId::Base,
            42161 => ChainId::ArbitrumOne,
            42220 => ChainId::Celo,
            59144 => ChainId::Linea,
            534352 => ChainId::Scroll,
            _ => ChainId::Other(number),
        }
    }
}

impl vstd::std_specs::convert::FromSpecImpl<u64> for ChainId {
    open spec fn obeys_from_spec() -> bool {
        true
    }

    open spec fn from_spec(number: u64) -> Self {
        ChainId::of_number(number)
    }
}

/// The chain with a number has that number.
pub proof fn law_chain_keeps_number(number: u64)
    ensures
        ChainId::of_number(number).number() == number,
        ChainId::of_number(number).wf(),
{
}

/// The numbers that chains are registered under, and the short names that they go by. No
/// other number has a chain with a name, and a chain with a name is not to be given by its
/// number.
pub proof fn law_chains_as_registered(number: u64)
    ensures
        ChainId::Ethereum.number() == 1 && ChainId::Ethereum.name() == "eth"@,
        ChainId::Optimism.number() == 10 && ChainId::Optimism.name() == "op"@,
        ChainId::Gnosis.number() == 100 && ChainId::Gnosis.name() == "gno"@,
        ChainId::Polygon.number() == 137 && ChainId::Polygon.name() == "matic"@,
        ChainId::Base.number() == 8453 && ChainId::Base.name() == "base"@,
        ChainId::ArbitrumOne.number() == 42161 && ChainId::ArbitrumOne.name() == "arb1"@,
        ChainId::Celo.number() == 42220 && ChainId::Celo.name() == "celo"@,
        ChainId::Linea.number() == 59144 && ChainId::Linea.name() == "linea"@,
        ChainId::Scroll.number() == 534352 && ChainId::Scroll.name() == "scr"@,
        ChainId::of_number(number) is Ethereum <==> number == 1,
        ChainId::of_number(number) is Optimism <==> number == 10,
        ChainId::of_number(number) is Gnosis <==> number == 100,
        ChainId::of_number(number) is Polygon <==> number == 137,
        ChainId::of_number(number) is Base <==> number == 8453,
        ChainId::of_number(number) is ArbitrumOne <==> number == 42161,
        ChainId::of_number(number) is Celo <==> number == 42220,
        ChainId::of_number(number) is Linea <==> number == 59144,
        ChainId::of_number(number) is Scroll <==> number == 534352,
        ChainId::Other(number).number() == number,
        ChainId::Other(number).name() == decimal_digits(number as nat),
        ChainId::Other(number).wf() <==> number != 1 && number != 10 && number != 100 && number
            != 137 && number != 8453 && number != 42161 && number != 42220 && number != 59144
            && number != 534352,
        ChainId::Ethereum.wf(),
        ChainId::Optimism.wf(),
        ChainId::Gnosis.wf(),
        ChainId::Polygon.wf(),
        ChainId::Base.wf(),
        ChainId::ArbitrumOne.wf(),
        ChainId::Celo.wf(),
        ChainId::Linea.wf(),
        ChainId::Scroll.wf(),
{
}

} // verus!
