use ens_resolvers::error::{CallFailure, ProfileError};
use ens_resolvers::resolvers::universal::{
    lookup_calls, lookup_request, read_reply, universal_outcome, universal_request, universal_request_fits,
    universal_response, urls_from_batch, urls_from_request, UniversalResolverResult,
};
use ens_resolvers::utils::dedup_ord;
use ethers::providers::ProviderError;
use ethers_core::abi::{encode, Token};
use ethers_core::types::{Address, U256};

type Verdict = Option<Result<(Vec<UniversalResolverResult>, [u8; 20], Vec<String>), ProfileError<u8>>>;

const OFFCHAIN_DNS_RESOLVER: &str = "0xF142B308cF687d4358410a4cB885513b30A42025";

fn word(last: u64) -> Vec<u8> {
    let mut word = vec![0u8; 24];
    word.extend_from_slice(&last.to_be_bytes());
    word
}

fn reply(answers: &[Vec<u8>], resolver: Address) -> Vec<u8> {
    let answers = answers.iter().cloned().map(Token::Bytes).collect();
    encode(&[
        Token::Bytes(encode(&[Token::Array(answers)])),
        Token::Address(resolver),
    ])
}

fn query(urls: &[&str]) -> Token {
    Token::Tuple(vec![
        Token::Address(Address::repeat_byte(3)),
        Token::Array(urls.iter().map(|url| Token::String(url.to_string())).collect()),
        Token::Bytes(vec![1, 2, 3]),
    ])
}

fn batch(queries: Vec<Token>) -> Vec<u8> {
    let mut calldata = vec![0xa7, 0x80, 0xba, 0xb6];
    calldata.extend(encode(&[Token::Array(queries)]));
    calldata
}

fn offchain_dns_resolver() -> Address {
    OFFCHAIN_DNS_RESOLVER.parse().unwrap()
}

#[test]
fn the_address_is_always_asked_for_first() {
    let calls = lookup_calls("eth", &"addr", &["avatar", "location"], |record: &&str, node: &[u8; 32]| {
        let mut call = record.as_bytes().to_vec();
        call.extend_from_slice(node);
        call
    });
    let node: [u8; 32] = [
        0x93, 0xcd, 0xeb, 0x70, 0x8b, 0x75, 0x45, 0xdc, 0x66, 0x8e, 0xb9, 0x28, 0x01, 0x76, 0x16, 0x9d,
        0x1c, 0x33, 0xcf, 0xd8, 0xed, 0x6f, 0x04, 0x69, 0x0a, 0x0b, 0xcc, 0x88, 0xa9, 0x3f, 0xc4, 0xae,
    ];
    assert_eq!(calls.len(), 3);
    assert_eq!(calls[0], [b"addr".to_vec(), node.to_vec()].concat());
    assert_eq!(calls[1], [b"avatar".to_vec(), node.to_vec()].concat());
    assert_eq!(calls[2], [b"location".to_vec(), node.to_vec()].concat());
}

#[test]
fn the_node_of_the_empty_name_is_zero() {
    let none: [u8; 0] = [];
    let calls = lookup_calls("", &0u8, &none, |_: &u8, node: &[u8; 32]| node.to_vec());
    assert_eq!(calls, vec![vec![0u8; 32]]);
}

#[test]
fn a_request_holds_the_name_and_the_calls() {
    let calls = vec![vec![1u8; 36], vec![2u8; 3]];
    let request = universal_request::<u8>(Ok(vec![3, b'e', b't', b'h', 0]), &calls, &[0xee; 20]).unwrap();

    let mut multicall = vec![0xac, 0x96, 0x50, 0xd8];
    multicall.extend(word(32));
    multicall.extend(word(2));
    multicall.extend(word(64));
    multicall.extend(word(160));
    multicall.extend(word(36));
    multicall.extend([1u8; 36]);
    multicall.extend([0u8; 28]);
    multicall.extend(word(3));
    multicall.extend([2u8; 3]);
    multicall.extend([0u8; 29]);

    let mut expected = vec![0x90, 0x61, 0xb9, 0x23];
    expected.extend(word(64));
    expected.extend(word(128));
    expected.extend(word(5));
    expected.extend([3, b'e', b't', b'h', 0]);
    expected.extend([0u8; 27]);
    expected.extend(word(multicall.len() as u64));
    expected.extend(&multicall);
    expected.extend([0u8; 28]);

    assert_eq!(request.to, [0xee; 20]);
    assert_eq!(request.data, expected);
}

#[test]
fn a_name_without_a_wire_form_makes_no_request() {
    match universal_request::<u8>(Err("label too long".to_string()), &vec![], &[0xee; 20]) {
        Err(ProfileError::DNSEncodeError(reason)) => assert_eq!(reason, "label too long"),
        _ => panic!("there is no wire form"),
    }
}

#[test]
fn a_lookup_is_one_request_for_the_address_and_the_records() {
    let calldata = |record: &u8, node: &[u8; 32]| {
        let mut call = vec![*record];
        call.extend_from_slice(node);
        call
    };
    let dns_name = vec![3, b'e', b't', b'h', 0];
    let request = lookup_request::<u8, _, _>("eth", Ok(dns_name.clone()), &1, &[2, 3], calldata, &[0xee; 20])
        .unwrap()
        .unwrap();
    let calls = lookup_calls("eth", &1, &[2, 3], calldata);
    let same = universal_request::<u8>(Ok(dns_name), &calls, &[0xee; 20]).unwrap();
    assert_eq!(request.to, [0xee; 20]);
    assert_eq!(request.data, same.data);

    let none: [u8; 0] = [];
    match lookup_request::<u8, _, _>("eth", Err("no".to_string()), &1, &none, calldata, &[0xee; 20]) {
        Some(Err(ProfileError::DNSEncodeError(reason))) => assert_eq!(reason, "no"),
        _ => panic!("there is no wire form"),
    }
}

#[test]
fn the_limit_of_a_request_is_4_gib() {
    assert!(universal_request_fits(5, &vec![vec![1u8; 36], vec![2u8; 3]]));
    assert!(universal_request_fits(0, &vec![]));
    assert!(universal_request_fits(0xffff_ffff - 287, &vec![]));
    assert!(!universal_request_fits(0xffff_ffff, &vec![]));
    assert!(!universal_request_fits(usize::MAX, &vec![]));
}

#[test]
fn a_reply_gives_the_records_behind_the_address() {
    let resolver = Address::repeat_byte(5);
    let data = reply(&[word(1), vec![7; 64], vec![8; 4], vec![]], resolver);
    let verdict: Verdict = universal_response(Ok((data, vec![])));
    let (results, address, urls) = verdict.unwrap().unwrap();
    assert_eq!(address, resolver.0);
    assert!(urls.is_empty());
    assert_eq!(results.len(), 3);
    assert_eq!((results[0].success, results[0].data.clone()), (true, vec![7; 64]));
    assert_eq!((results[1].success, results[1].data.clone()), (false, vec![8; 4]));
    assert_eq!((results[2].success, results[2].data.clone()), (true, vec![]));
}

#[test]
fn a_name_without_a_resolver_is_not_found() {
    let verdict: Verdict = universal_response(Ok((reply(&[word(1)], Address::zero()), vec![])));
    assert!(matches!(verdict, Some(Err(ProfileError::NotFound))));
}

#[test]
fn an_offchain_dns_name_without_an_address_is_not_found() {
    let resolver = offchain_dns_resolver();
    let verdict: Verdict = universal_response(Ok((reply(&[vec![1; 4], word(2)], resolver), vec![])));
    assert!(matches!(verdict, Some(Err(ProfileError::NotFound))));

    let verdict: Verdict = universal_response(Ok((reply(&[word(1), word(2)], resolver), vec![])));
    assert_eq!(verdict.unwrap().unwrap().1, resolver.0);

    let other = Address::repeat_byte(5);
    let verdict: Verdict = universal_response(Ok((reply(&[vec![1; 4], word(2)], other), vec![])));
    assert_eq!(verdict.unwrap().unwrap().1, other.0);
}

#[test]
fn a_reply_without_answers_has_no_verdict() {
    let verdict: Verdict = universal_response(Ok((reply(&[], Address::repeat_byte(5)), vec![])));
    assert!(verdict.is_none());
}

#[test]
fn replies_that_cannot_be_decoded_are_reported() {
    let verdict: Verdict = universal_response(Ok((vec![0; 63], vec![])));
    match verdict {
        Some(Err(ProfileError::ImplementationError(message))) => assert_eq!(message, "ABI decode failed"),
        _ => panic!("the reply is too short"),
    }

    let data = encode(&[Token::Bytes(vec![1; 5]), Token::Address(Address::repeat_byte(5))]);
    let verdict: Verdict = universal_response(Ok((data, vec![])));
    match verdict {
        Some(Err(ProfileError::ImplementationError(message))) => {
            assert_eq!(message, "multicall ABI decode failed")
        }
        _ => panic!("the inner reply is no list"),
    }
}

#[test]
fn a_reply_is_read_into_answers_and_resolver() {
    let (answers, resolver) = read_reply::<u8>(&reply(&[word(1), vec![9]], Address::repeat_byte(6))).unwrap();
    assert_eq!(answers, vec![word(1), vec![9]]);
    assert_eq!(resolver, [6; 20]);
}

#[test]
fn failures_say_what_they_mean_for_the_name() {
    let down = || ProviderError::CustomError("down".to_string());

    let verdict: Verdict = universal_response(Err(CallFailure::Gateway(4)));
    assert!(matches!(verdict, Some(Err(ProfileError::CCIPError(4)))));

    let verdict: Verdict = universal_response(Err(CallFailure::Provider(down())));
    assert!(matches!(verdict, Some(Err(ProfileError::RPCError(ProviderError::CustomError(_))))));

    let failure = CallFailure::JsonRpc { error: down(), answered: false };
    let verdict: Verdict = universal_response(Err(failure));
    assert!(matches!(verdict, Some(Err(ProfileError::RPCError(ProviderError::CustomError(_))))));

    let failure = CallFailure::JsonRpc { error: down(), answered: true };
    let verdict: Verdict = universal_response(Err(failure));
    assert!(matches!(verdict, Some(Err(ProfileError::NotFound))));
}

#[test]
fn the_urls_of_a_request_are_those_of_its_queries() {
    let calldata = batch(vec![query(&["https://a", "https://b"]), query(&[]), query(&["https://a", "https://c"])]);
    assert_eq!(
        urls_from_request(&calldata),
        vec!["https://a", "https://b", "https://a", "https://c"]
    );
}

#[test]
fn what_is_no_batch_names_no_urls() {
    assert!(urls_from_request(&[]).is_empty());
    assert!(urls_from_request(&[1, 2, 3]).is_empty());
    assert!(urls_from_request(&[1, 2, 3, 4]).is_empty());
    assert!(urls_from_request(&[0xff; 100]).is_empty());
}

#[test]
fn tokens_of_another_shape_name_no_urls() {
    assert!(urls_from_batch(&vec![]).is_empty());
    assert!(urls_from_batch(&vec![Token::Bool(true)]).is_empty());
    let odd = vec![
        Token::Uint(U256::from(1u64)),
        Token::Tuple(vec![]),
        Token::Tuple(vec![Token::Bool(true)]),
        Token::Tuple(vec![Token::Bool(true), Token::Bool(false)]),
        Token::Tuple(vec![
            Token::Bool(true),
            Token::Array(vec![Token::Bool(true), Token::String("https://d".to_string())]),
        ]),
    ];
    assert_eq!(urls_from_batch(&vec![Token::Array(odd)]), vec!["https://d"]);
}

#[test]
fn every_url_is_given_once_in_the_order_of_the_requests() {
    let requests = vec![
        batch(vec![query(&["https://b", "https://a"])]),
        vec![0],
        batch(vec![query(&["https://a", "https://c", "https://b"])]),
    ];
    let outcome = universal_outcome::<u8>(&vec![word(1)], [5; 20], &requests).unwrap();
    assert!(outcome.0.is_empty());
    assert_eq!(outcome.2, vec!["https://b", "https://a", "https://c"]);
    assert_eq!(dedup_ord(&outcome.2), outcome.2);
}

#[test]
fn repetitions_are_dropped_and_order_is_kept() {
    let texts: Vec<String> = ["b", "a", "b", "", "a", "c", ""].iter().map(|text| text.to_string()).collect();
    assert_eq!(dedup_ord(&texts), vec!["b", "a", "", "c"]);
    assert!(dedup_ord(&[]).is_empty());
}
