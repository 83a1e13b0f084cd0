use ens_resolvers::cointype::coins::CoinType;
use ens_resolvers::cointype::evm::ChainId;
use ens_resolvers::cointype::slip44::SLIP44;
use ethers_core::types::U256;

#[test]
fn test_coin_type() {
    let coin_type: CoinType = SLIP44::Bitcoin.into();
    let coin_type: U256 = coin_type.into();
    assert_eq!(coin_type, 0.into());
}

#[test]
fn test_coin_type_evm() {
    let coin_type: CoinType = ChainId::Ethereum.into();
    let coin_type: U256 = coin_type.into();

    assert_eq!(coin_type.to_string(), "2147483649".to_string());
}

#[test]
fn test_coin_type_evm_gnosis() {
    let coin_type: CoinType = ChainId::Gnosis.into();
    let coin_type: U256 = coin_type.into();

    assert_eq!(coin_type.to_string(), "2147483748".to_string());
}

#[test]
fn test_coin_type_evm_shortnames() {
    assert_eq!(CoinType::from(10 | 0x8000_0000).to_string(), "op");
    assert_eq!(CoinType::from(42161 | 0x8000_0000).to_string(), "arb1");
    assert_eq!(CoinType::from(8453 | 0x8000_0000).to_string(), "base");
    assert_eq!(CoinType::from(137 | 0x8000_0000).to_string(), "matic");
    assert_eq!(CoinType::from(59144 | 0x8000_0000).to_string(), "linea");
    assert_eq!(CoinType::from(534352 | 0x8000_0000).to_string(), "scr");
    assert_eq!(CoinType::from(42220 | 0x8000_0000).to_string(), "celo");
}

#[test]
fn test_to_coin_type() {
    let coin_type: CoinType = CoinType::from(0);

    assert_eq!(coin_type, CoinType::Slip44(SLIP44::Bitcoin));
}

#[test]
fn test_to_coin_type_evm() {
    let coin_type: CoinType = CoinType::from(2147483649);

    assert_eq!(coin_type, CoinType::Evm(ChainId::Ethereum));
}

#[test]
fn test_to_coin_type_evm_gnosis() {
    let coin_type: CoinType = CoinType::from(2147483748);

    assert_eq!(coin_type, CoinType::Evm(ChainId::Gnosis));
}

#[test]
fn numbers_without_a_name_are_written_out() {
    assert_eq!(CoinType::from(0).to_string(), "btc");
    assert_eq!(CoinType::from(60).to_string(), "eth");
    assert_eq!(CoinType::from(5).to_string(), "5");
    assert_eq!(CoinType::from(1200).to_string(), "1200");
    assert_eq!(CoinType::from(0x8000_0000).to_string(), "0");
    assert_eq!(CoinType::from(0x8000_0001).to_string(), "eth");
    assert_eq!(CoinType::from(0x8000_0000 | 100).to_string(), "gno");
    assert_eq!(
        CoinType::from(u64::MAX).to_string(),
        (u64::MAX - 0x8000_0000).to_string()
    );
}

#[test]
fn the_highest_coin_is_just_below_the_first_chain() {
    assert_eq!(CoinType::from(0x7fff_ffff), CoinType::Slip44(SLIP44::Other(0x7fff_ffff)));
    assert_eq!(CoinType::from(0x8000_0000), CoinType::Evm(ChainId::Other(0)));
}

#[test]
fn numbers_survive_the_way_through_a_coin_type() {
    let numbers: [u64; 8] = [0, 1, 60, 0x7fff_ffff, 0x8000_0000, 2147492101, 0xffff_ffff, 0x1_8000_0000];
    for number in numbers {
        assert_eq!(U256::from(CoinType::from(number)), U256::from(number));
    }
}

#[test]
fn a_chain_beyond_32_bits_gains_bit_31() {
    let number: u64 = 0x1_0000_0000;
    assert_eq!(CoinType::from(number), CoinType::Evm(ChainId::Other(number)));
    assert_eq!(U256::from(CoinType::from(number)), U256::from(0x1_8000_0000u64));
}

#[test]
fn every_named_chain_is_known_by_its_coin_type() {
    let chains: [ChainId; 9] = [
        ChainId::Ethereum,
        ChainId::Optimism,
        ChainId::Gnosis,
        ChainId::Polygon,
        ChainId::Base,
        ChainId::ArbitrumOne,
        ChainId::Celo,
        ChainId::Linea,
        ChainId::Scroll,
    ];
    for chain in chains {
        assert_eq!(CoinType::from(chain.as_ensip11()), CoinType::Evm(chain.clone()));
        assert_eq!(ChainId::from(chain.to_number()), chain);
    }
    assert_eq!(ChainId::Base.as_ensip11(), 2147492101);
}
