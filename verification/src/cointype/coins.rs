//! Coin types, and the numbers that resolvers know them by.
use ethers_core::types::U256;
use vstd::prelude::*;

use crate::abi::{u256_from_u64, u256_value};
use crate::cointype::evm::{law_chain_keeps_number, ChainId};
use crate::cointype::slip44::{law_coin_keeps_index, SLIP44};

verus! {

/// What a record of a name is for: a coin, or a chain that runs the Ethereum virtual machine.
#[derive(Debug, Clone, Hash, PartialEq, Eq)]
pub enum CoinType {
    Slip44(SLIP44),
    Evm(ChainId),
}

impl CoinType {
    /// The number of the coin type: the index of a coin, or the number of a chain with
    /// bit 31 set.
    pub open spec fn number(self) -> u64 {
        match self {
            CoinType::Slip44(coin) => coin.index() as u64,
            CoinType::Evm(chain) => chain.number() | 0x8000_0000,
        }
    }

    /// The coin type with a number: a coin below 2^31, and from there on a chain, by the
    /// number without bit 31.
    pub open spec fn of_number(number: u64) -> CoinType {
        if number >= 0x8000_0000 {
            CoinType::Evm(ChainId::of_number(number & !0x8000_0000u64))
        } else {
            CoinType::Slip44(SLIP44::of_index(number as u32))
        }
    }

    /// The short name of the coin or the chain.
    pub open spec fn name(self) -> Seq<char> {
        match self {
            CoinType::Slip44(coin) => coin.name(),
            CoinType::Evm(chain) => chain.name(),
        }
    }

    /// Returns the short name of the coin or the chain.
    pub fn to_string(&self) -> (name: String)
        ensures
            name@ == self.name(),
            self matches CoinType::Slip44(coin) ==> name@ == coin.name(),
            self matches CoinType::Evm(chain) ==> name@ == chain.name(),
    {
        match self {
            CoinType::Slip44(coin) => coin.to_string(),
            CoinType::Evm(chain) => chain.to_string(),
        }
    }
}

impl From<u64> for CoinType {
    fn from(number: u64) -> (coin_type: CoinType)
        ensures
            number < 0x8000_0000 <==> coin_type is Slip44,
            coin_type matches CoinType::Slip44(coin) ==> coin.index() == number && coin.wf(),
            coin_type matches CoinType::Evm(chain) ==> chain.wf() && chain.number() == if (number
                / 0x8000_0000) % 2 == 1 {
                number - 0x8000_0000
            } else {
                number as int
            },
    {
        proof {
            let chain_number = number & !0x8000_0000u64;
            assert(chain_number == if (number / 0x8000_0000) % 2 == 1 {
                number - 0x8000_0000
            } else {
                number as int
            }) by (bit_vector)
                requires
                    chain_number == number & !0x8000_0000u64,
            ;
            law_chain_keeps_number(chain_number);
            law_coin_keeps_index(number as u32);
        }
        if number >= 0x8000_0000 {
            return CoinType::Evm(ChainId::from(number & !0x8000_0000u64));
        }
        CoinType::Slip44(SLIP44::from(number as u32))
    }
}

impl vstd::std_specs::convert::FromSpecImpl<u64> for CoinType {
    open spec fn obeys_from_spec() -> bool {
        true
    }

    open spec fn from_spec(number: u64) -> Self {
        CoinType::of_number(number)
    }
}

impl From<SLIP44> for CoinType {
    fn from(coin: SLIP44) -> (coin_type: CoinType)
        ensures
            coin_type == CoinType::Slip44(coin),
    {
        CoinType::Slip44(coin)
    }
}

impl vstd::std_specs::convert::FromSpecImpl<SLIP44> for CoinType {
    open spec fn obeys_from_spec() -> bool {
        true
    }

    open spec fn from_spec(coin: SLIP44) -> Self {
        CoinType::Slip44(coin)
    }
}

impl From<ChainId> for CoinType {
    fn from(chain: ChainId) -> (coin_type: CoinType)
        ensures
            coin_type == CoinType::Evm(chain),
    {
        CoinType::Evm(chain)
    }
}

impl vstd::std_specs::convert::FromSpecImpl<ChainId> for CoinType {
    open spec fn obeys_from_spec() -> bool {
        true
    }

    open spec fn from_spec(chain: ChainId) -> Self {
        CoinType::Evm(chain)
    }
}

impl From<CoinType> for U256 {
    fn from(coin_type: CoinType) -> (wide: U256)
        ensures
            u256_value(wide) == coin_type.number(),
            coin_type matches CoinType::Slip44(coin) ==> wide.0@ == seq![
                coin.index() as u64,
                0,
                0,
                0,
            ],
            coin_type matches CoinType::Evm(chain) ==> wide.0@ == seq![
                chain.number() | 0x8000_0000,
                0,
                0,
                0,
            ],
            coin_type == CoinType::Evm(ChainId::Ethereum) ==> u256_value(wide) == 2147483649,
            coin_type == CoinType::Evm(ChainId::Optimism) ==> u256_value(wide) == 2147483658,
            coin_type == CoinType::Evm(ChainId::Gnosis) ==> u256_value(wide) == 2147483748,
            coin_type == CoinType::Evm(ChainId::Polygon) ==> u256_value(wide) == 2147483785,
            coin_type == CoinType::Evm(ChainId::Base) ==> u256_value(wide) == 2147492101,
            coin_type == CoinType::Evm(ChainId::ArbitrumOne) ==> u256_value(wide) == 2147525809,
            coin_type == CoinType::Evm(ChainId::Celo) ==> u256_value(wide) == 2147525868,
            coin_type == CoinType::Evm(ChainId::Linea) ==> u256_value(wide) == 2147542792,
            coin_type == CoinType::Evm(ChainId::Scroll) ==> u256_value(wide) == 2148018000,
    {
        let number: u64 = match &coin_type {
            CoinType::Slip44(coin) => coin.to_index() as u64,
            CoinType::Evm(chain) => chain.as_ensip11(),
        };
        let wide = u256_from_u64(number);
        assert(wide.0 =~= [number, 0, 0, 0]);
        wide
    }
}

impl vstd::std_specs::convert::FromSpecImpl<CoinType> for U256 {
    open spec fn obeys_from_spec() -> bool {
        true
    }

    open spec fn from_spec(coin_type: CoinType) -> U256 {
        U256([coin_type.number(), 0, 0, 0])
    }
}

/// The coin type with a number is known by that number again, for every number below 2^31
/// and every number with bit 31 set. The others are chains whose coin type has bit 31 added.
pub proof fn law_number_names_itself(number: u64)
    requires
        number < 0x8000_0000 || number & 0x8000_0000 != 0,
    ensures
        CoinType::of_number(number).number() == number,
{
    if number >= 0x8000_0000 {
        assert((number & !0x8000_0000u64) | 0x8000_0000 == number) by (bit_vector)
            requires
                number & 0x8000_0000 != 0,
        ;
    }
}

/// The number of a coin type leads back to it, where the index of its coin is below 2^31,
/// or the number of its chain has bit 31 clear. So two of these never share a number.
pub proof fn law_coin_type_is_known_by_its_number(coin_type: CoinType)
    requires
        coin_type matches CoinType::Slip44(coin) ==> coin.wf() && coin.index() < 0x8000_0000,
        coin_type matches CoinType::Evm(chain) ==> chain.wf() && chain.number() & 0x8000_0000 == 0,
    ensures
        CoinType::of_number(coin_type.number()) == coin_type,
{
    if let CoinType::Evm(chain) = coin_type {
        let number = chain.number();
        assert((number | 0x8000_0000) >= 0x8000_0000 && (number | 0x8000_0000) & !0x8000_0000u64
            == number) by (bit_vector)
            requires
                number & 0x8000_0000 == 0,
        ;
    }
}

/// Exactly the numbers from 2^31 on are those of chains.
pub proof fn law_chains_start_at_bit_31(number: u64)
    ensures
        CoinType::of_number(number) is Evm <==> number >= 0x8000_0000,
        forall|chain: ChainId| (#[trigger] CoinType::Evm(chain).number()) >= 0x8000_0000,
{
    assert forall|chain: ChainId| (#[trigger] CoinType::Evm(chain).number()) >= 0x8000_0000 by {
        let own = chain.number();
        assert(own | 0x8000_0000 >= 0x8000_0000) by (bit_vector);
    }
}

/// The number of a coin type is the index of its coin, or lies 2^31 above the number of its
/// chain, which is added once: a chain that has bit 31 set already keeps its number.
pub proof fn law_coin_type_numbers(coin: SLIP44, chain: ChainId)
    ensures
        CoinType::Slip44(coin).number() == coin.index(),
        CoinType::Evm(chain).number() == if (chain.number() / 0x8000_0000) % 2 == 1 {
            chain.number() as int
        } else {
            chain.number() + 0x8000_0000
        },
{
    let own = chain.number();
    let flagged = own | 0x8000_0000;
    assert(flagged == if (own / 0x8000_0000) % 2 == 1 {
        own as int
    } else {
        own + 0x8000_0000
    }) by (bit_vector)
        requires
            flagged == own | 0x8000_0000,
    ;
}

/// The coin types of the named chains, as resolvers know them.
pub proof fn law_named_chains_have_their_coin_type()
    ensures
        CoinType::Evm(ChainId::Ethereum).number() == 2147483649,
        CoinType::Evm(ChainId::Optimism).number() == 2147483658,
        CoinType::Evm(ChainId::Gnosis).number() == 2147483748,
        CoinType::Evm(ChainId::Polygon).number() == 2147483785,
        CoinType::Evm(ChainId::Base).number() == 2147492101,
        CoinType::Evm(ChainId::ArbitrumOne).number() == 2147525809,
        CoinType::Evm(ChainId::Celo).number() == 2147525868,
        CoinType::Evm(ChainId::Linea).number() == 2147542792,
        CoinType::Evm(ChainId::Scroll).number() == 2148018000,
{
    law_coin_type_numbers(SLIP44::Bitcoin, ChainId::Ethereum);
    law_coin_type_numbers(SLIP44::Bitcoin, ChainId::Optimism);
    law_coin_type_numbers(SLIP44::Bitcoin, ChainId::Gnosis);
    law_coin_type_numbers(SLIP44::Bitcoin, ChainId::Polygon);
    law_coin_type_numbers(SLIP44::Bitcoin, ChainId::Base);
    law_coin_type_numbers(SLIP44::Bitcoin, ChainId::ArbitrumOne);
    law_coin_type_numbers(SLIP44::Bitcoin, ChainId::Celo);
    law_coin_type_numbers(SLIP44::Bitcoin, ChainId::Linea);
    law_coin_type_numbers(SLIP44::Bitcoin, ChainId::Scroll);
}

/// A coin type goes by the name of its coin or its chain.
pub proof fn law_coin_type_names(coin: SLIP44, chain: ChainId)
    ensures
        CoinType::Slip44(coin).name() == coin.name(),
        CoinType::Evm(chain).name() == chain.name(),
{
}

} // verus!
