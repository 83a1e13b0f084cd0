use ens_resolvers::resolvers::reverse::{
    primary_name, reverse_request, reverse_request_coin_type, reverse_response, reverse_verdict,
    ReverseResolveError,
};
use ethers::providers::ProviderError;
use ethers_core::abi::{encode, Error, Token};
use ethers_core::types::Address;

const UNIVERSAL_RESOLVER: [u8; 20] = [0xee; 20];

fn word(last: u64) -> Vec<u8> {
    let mut word = vec![0u8; 24];
    word.extend_from_slice(&last.to_be_bytes());
    word
}

fn reply(name: &str, resolver: Address) -> Vec<u8> {
    encode(&[
        Token::String(name.to_string()),
        Token::Address(resolver),
        Token::Address(Address::repeat_byte(9)),
    ])
}

#[test]
fn a_request_holds_the_address_and_the_coin_type() {
    let address = [0x11u8; 20];
    let mut expected = vec![0x5d, 0x78, 0xa2, 0x17];
    expected.extend(word(64));
    expected.extend(word(2147492101));
    expected.extend(word(20));
    expected.extend([0x11u8; 20]);
    expected.extend([0u8; 12]);

    let request = reverse_request_coin_type(&address, 2147492101, &UNIVERSAL_RESOLVER);
    assert_eq!(request.to, UNIVERSAL_RESOLVER);
    assert_eq!(request.data, expected);
    assert_eq!(request.data.len(), 132);
}

#[test]
fn the_main_chain_is_coin_type_60() {
    let address = [7u8; 20];
    let request = reverse_request(&address, &UNIVERSAL_RESOLVER);
    let same = reverse_request_coin_type(&address, 60, &UNIVERSAL_RESOLVER);
    assert_eq!(request.data, same.data);
    assert_eq!(request.to, same.to);
    assert_eq!(request.data[36..68].to_vec(), word(60));
}

#[test]
fn a_name_with_a_resolver_is_primary() {
    let verdict = reverse_response(Ok(reply("nick.eth", Address::repeat_byte(1))));
    assert_eq!(verdict.ok(), Some("nick.eth".to_string()));
}

#[test]
fn the_empty_name_is_none() {
    let verdict = reverse_response(Ok(reply("", Address::zero())));
    assert!(matches!(verdict, Err(ReverseResolveError::MissingPrimaryName)));
    assert!(matches!(
        primary_name(String::new(), &[1; 20]),
        Err(ReverseResolveError::MissingPrimaryName)
    ));
}

#[test]
fn a_name_without_a_resolver_leads_elsewhere() {
    let verdict = reverse_response(Ok(reply("nick.eth", Address::zero())));
    assert!(matches!(verdict, Err(ReverseResolveError::AddressMismatch)));
    assert!(matches!(
        primary_name("nick.eth".to_string(), &[0; 20]),
        Err(ReverseResolveError::AddressMismatch)
    ));
}

#[test]
fn only_the_first_address_counts() {
    let mut resolver = [0u8; 20];
    resolver[19] = 1;
    let data = encode(&[
        Token::String("antony.sh".to_string()),
        Token::Address(Address::from(resolver)),
        Token::Address(Address::zero()),
    ]);
    assert_eq!(reverse_response(Ok(data)).ok(), Some("antony.sh".to_string()));
}

#[test]
fn a_failed_call_says_why() {
    match reverse_response(Err("timed out".to_string())) {
        Err(ReverseResolveError::AddressLookupError(reason)) => assert_eq!(reason, "timed out"),
        _ => panic!("the call failed"),
    }
}

#[test]
fn a_reply_that_is_too_short_cannot_be_decoded() {
    assert!(matches!(
        reverse_response(Ok(Vec::new())),
        Err(ReverseResolveError::AbiDecodeError(_))
    ));
    assert!(matches!(
        reverse_response(Ok(vec![0; 95])),
        Err(ReverseResolveError::AbiDecodeError(_))
    ));
}

#[test]
fn an_error_of_the_coder_is_handed_on() {
    assert!(matches!(
        reverse_verdict(Err(Error::InvalidData)),
        Err(ReverseResolveError::AbiDecodeError(Error::InvalidData))
    ));
    let tokens = vec![
        Token::String("nick.eth".to_string()),
        Token::Address(Address::repeat_byte(1)),
        Token::Address(Address::zero()),
    ];
    assert_eq!(reverse_verdict(Ok(tokens)).ok(), Some("nick.eth".to_string()));
}

#[test]
fn errors_of_the_outside_are_wrapped() {
    assert!(matches!(
        ReverseResolveError::from(ProviderError::CustomError("down".to_string())),
        ReverseResolveError::RPCError(ProviderError::CustomError(_))
    ));
    assert!(matches!(
        ReverseResolveError::from(Error::InvalidData),
        ReverseResolveError::AbiDecodeError(Error::InvalidData)
    ));
}

#[test]
fn errors_are_shown_as_texts() {
    let missing = reverse_response(Ok(reply("", Address::zero()))).unwrap_err();
    assert_eq!(missing.to_string(""), "Address doesn't have a primary name");

    let mismatch = reverse_response(Ok(reply("nick.eth", Address::zero()))).unwrap_err();
    assert_eq!(
        mismatch.to_string("ignored"),
        "Address on name doesn't match with lookup address"
    );

    let failed = reverse_response(Err("timed out".to_string())).unwrap_err();
    assert_eq!(
        failed.to_string(""),
        "Failed to lookup address for reverse record: timed out"
    );

    let rpc = ReverseResolveError::from(ProviderError::CustomError("down".to_string()));
    assert_eq!(rpc.to_string("down"), "RPC provider error: down");

    let decode = ReverseResolveError::from(Error::InvalidData);
    assert_eq!(
        decode.to_string(&Error::InvalidData.to_string()),
        "ABI decode error: Invalid data"
    );
}

#[test]
fn the_error_of_a_bad_reply_is_that_of_the_coder() {
    assert!(matches!(
        reverse_response(Ok(Vec::new())),
        Err(ReverseResolveError::AbiDecodeError(Error::InvalidName(_)))
    ));
    assert!(matches!(
        reverse_response(Ok(vec![0xff; 96])),
        Err(ReverseResolveError::AbiDecodeError(Error::InvalidData))
    ));
}
