//! Looking up the records of a name.
use ethers_core::abi::{ParamType, Token};
use vstd::pervasive::unreached;
use vstd::prelude::*;
use vstd::slice::slice_subrange;

use crate::abi::{
    abi_decoding, abi_encoding, encoded_len, has_kind, is_writable_len, padded_len, readable,
    token_value, token_values, type_kind, type_kinds, value_len, writable, AbiKind, AbiValue,
};
use crate::error::{CallFailure, ProfileError};
use crate::resolvers::CallRequest;
use crate::utils::{
    bytes_view, dedup_ord, first_occurrences, is_zero_address,
    law_first_occurrences_are_the_items_once, law_zero_address_is_zeros, same_address, texts_view,
    zero_address,
};

verus! {

/// The answer to one lookup.
#[derive(Debug, Clone)]
pub struct UniversalResolverResult {
    /// Whether the lookup succeeded.
    pub success: bool,
    /// What the resolver of the name returned.
    pub data: Vec<u8>,
}

impl View for UniversalResolverResult {
    type V = (bool, Seq<u8>);

    open spec fn view(&self) -> (bool, Seq<u8>) {
        (self.success, self.data@)
    }
}

/// The flags and bytes of answers, in their order.
pub open spec fn results_view(results: Seq<UniversalResolverResult>) -> Seq<(bool, Seq<u8>)> {
    Seq::new(results.len(), |i: int| results[i]@)
}

/// The sorts of value that a gateway query holds: `(address,string[],bytes)[]`.
pub open spec fn query_kinds() -> Seq<AbiKind> {
    seq![
        AbiKind::Array(
            Box::new(
                AbiKind::Tuple(
                    seq![
                        AbiKind::Address,
                        AbiKind::Array(Box::new(AbiKind::Text)),
                        AbiKind::Bytes,
                    ],
                ),
            ),
        ),
    ]
}

/// The texts among `values`, in their order.
pub open spec fn texts_in(values: Seq<AbiValue>) -> Seq<Seq<char>>
    decreases values.len(),
{
    if values.len() == 0 {
        Seq::empty()
    } else {
        let before = texts_in(values.drop_last());
        match values.last() {
            AbiValue::Text(text) => before.push(text),
            _ => before,
        }
    }
}

/// The URLs that one query names: the texts in the list at its second place.
pub open spec fn query_urls(query: AbiValue) -> Seq<Seq<char>> {
    match query {
        AbiValue::Tuple(fields) => if fields.len() > 1 {
            match fields[1] {
                AbiValue::Array(urls) => texts_in(urls),
                _ => Seq::empty(),
            }
        } else {
            Seq::empty()
        },
        _ => Seq::empty(),
    }
}

/// The URLs that queries name, query by query.
pub open spec fn queries_urls(queries: Seq<AbiValue>) -> Seq<Seq<char>>
    decreases queries.len(),
{
    if queries.len() == 0 {
        Seq::empty()
    } else {
        queries_urls(queries.drop_last()) + query_urls(queries.last())
    }
}

/// The URLs in a decoded batch of queries: those of the list at its first place.
pub open spec fn batch_urls(decoded: Seq<AbiValue>) -> Seq<Seq<char>> {
    if decoded.len() == 0 {
        Seq::empty()
    } else {
        match decoded[0] {
            AbiValue::Array(queries) => queries_urls(queries),
            _ => Seq::empty(),
        }
    }
}

/// The URLs that the call data of a gateway request names, behind the selector: none where
/// it is no batch of queries.
pub open spec fn request_urls(calldata: Seq<u8>) -> Seq<Seq<char>> {
    if calldata.len() < 4 {
        Seq::empty()
    } else {
        match abi_decoding(query_kinds(), calldata.subrange(4, calldata.len() as int)) {
            Some(decoded) => batch_urls(decoded),
            None => Seq::empty(),
        }
    }
}

/// The URLs that gateway requests name, request by request.
pub open spec fn requests_urls(requests: Seq<Seq<u8>>) -> Seq<Seq<char>>
    decreases requests.len(),
{
    if requests.len() == 0 {
        Seq::empty()
    } else {
        requests_urls(requests.drop_last()) + request_urls(requests.last())
    }
}

/// Collects the texts among tokens.
fn texts_of(tokens: &Vec<Token>) -> (texts: Vec<String>)
    ensures
        texts_view(texts@) == texts_in(token_values(tokens@)),
        (forall|i: int| 0 <= i < tokens@.len() ==> (#[trigger] tokens@[i]) is String) ==> (
        texts@.len() == tokens@.len() && forall|i: int|
            0 <= i < texts@.len() ==> (tokens@[i] matches Token::String(text) && text@ == (
            #[trigger] texts@[i])@)),
{
    let mut texts: Vec<String> = Vec::new();
    let mut i: usize = 0;
    let ghost values = token_values(tokens@);
    assert(texts_view(texts@) =~= texts_in(values.take(0)));
    while i < tokens.len()
        invariant
            i <= tokens@.len(),
            values == token_values(tokens@),
            texts_view(texts@) == texts_in(values.take(i as int)),
        decreases tokens@.len() - i,
    {
        proof {
            assert(values.take(i + 1).drop_last() =~= values.take(i as int));
            assert(values.take(i + 1).last() == token_value(tokens@[i as int]));
        }
        let ghost before = texts@;
        match &tokens[i] {
            Token::String(text) => {
                texts.push(text.clone());
                assert(texts_view(texts@) =~= texts_view(before).push(text@));
            },
            _ => {},
        }
        i += 1;
    }
    assert(values.take(tokens@.len() as int) =~= values);
    proof {
        if forall|i: int| 0 <= i < tokens@.len() ==> (#[trigger] tokens@[i]) is String {
            assert forall|i: int| 0 <= i < values.len() implies (#[trigger] values[i]) is Text by {
                assert(tokens@[i] is String);
            }
            law_texts_keep_their_places(values);
            assert forall|i: int| 0 <= i < texts@.len() implies (tokens@[i] matches Token::String(
                text,
            ) && text@ == (#[trigger] texts@[i])@) by {
                assert(texts_view(texts@)[i] == values[i]->Text_0);
                assert(tokens@[i] is String);
            }
        }
    }
    texts
}

/// Collects the URLs that one query names.
fn urls_of_query(query: &Token) -> (urls: Vec<String>)
    ensures
        texts_view(urls@) == query_urls(token_value(*query)),
{
    if let Token::Tuple(fields) = query {
        if fields.len() > 1 {
            assert(token_values(fields@)[1] == token_value(fields@[1]));
            if let Token::Array(urls) = &fields[1] {
                return texts_of(urls);
            }
        }
    }
    let none: Vec<String> = Vec::new();
    assert(texts_view(none@) =~= Seq::empty());
    none
}

/// Collects the URLs in a decoded batch of gateway queries, query by query. What is not of
/// the shape of a batch names none.
pub fn urls_from_batch(decoded: &Vec<Token>) -> (urls: Vec<String>)
    ensures
        texts_view(urls@) == batch_urls(token_values(decoded@)),
{
    let mut urls: Vec<String> = Vec::new();
    assert(texts_view(urls@) =~= Seq::empty());
    if decoded.len() == 0 {
        return urls;
    }
    assert(token_values(decoded@)[0] == token_value(decoded@[0]));
    if let Token::Array(queries) = &decoded[0] {
        let mut i: usize = 0;
        let ghost values = token_values(queries@);
        assert(values.take(0) =~= Seq::empty());
        while i < queries.len()
            invariant
                i <= queries@.len(),
                values == token_values(queries@),
                texts_view(urls@) == queries_urls(values.take(i as int)),
            decreases queries@.len() - i,
        {
            proof {
                assert(values.take(i + 1).drop_last() =~= values.take(i as int));
                assert(values.take(i + 1).last() == token_value(queries@[i as int]));
            }
            let ghost before = urls@;
            let mut found = urls_of_query(&queries[i]);
            let ghost added = found@;
            urls.append(&mut found);
            assert(texts_view(urls@) =~= texts_view(before) + texts_view(added));
            i += 1;
        }
        assert(values.take(queries@.len() as int) =~= values);
    }
    urls
}

/// Collects the URLs that the call data of a gateway request names: none where it is no
/// batch of queries.
pub fn urls_from_request(calldata: &[u8]) -> (urls: Vec<String>)
    requires
        usize::BITS == 64,
    ensures
        texts_view(urls@) == request_urls(calldata@),
        calldata@.len() >= 4 ==> match abi_decoding(
            seq![
                AbiKind::Array(
                    Box::new(
                        AbiKind::Tuple(
                            seq![
                                AbiKind::Address,
                                AbiKind::Array(Box::new(AbiKind::Text)),
                                AbiKind::Bytes,
                            ],
                        ),
                    ),
                ),
            ],
            calldata@.skip(4),
        ) {
            Some(decoded) => texts_view(urls@) == batch_urls(decoded),
            None => urls@.len() == 0,
        },
        calldata@.len() < 36 ==> urls@.len() == 0,
{
    let none: Vec<String> = Vec::new();
    assert(texts_view(none@) =~= Seq::empty());
    if calldata.len() < 4 {
        return none;
    }
    let mut fields: Vec<ParamType> = Vec::new();
    fields.push(ParamType::Address);
    fields.push(ParamType::Array(Box::new(ParamType::String)));
    fields.push(ParamType::Bytes);
    let mut types: Vec<ParamType> = Vec::new();
    types.push(ParamType::Array(Box::new(ParamType::Tuple(fields))));
    proof {
        reveal_with_fuel(type_kind, 5);
        reveal_with_fuel(type_kinds, 5);
        reveal_with_fuel(readable, 5);
        assert(type_kinds(types@) =~= query_kinds()) by {
            assert(type_kinds(fields@) =~= seq![
                AbiKind::Address,
                AbiKind::Array(Box::new(AbiKind::Text)),
                AbiKind::Bytes,
            ]);
        }
    }
    assert(calldata@.skip(4) =~= calldata@.subrange(4, calldata@.len() as int));
    match ethers_core::abi::decode(
        types.as_slice(),
        slice_subrange(calldata, 4, calldata.len()),
    ) {
        Ok(decoded) => urls_from_batch(&decoded),
        Err(_) => none,
    }
}

/// The node of a name: what `ethers::providers::namehash` computes for it.
pub uninterp spec fn ens_node(name: Seq<char>) -> Seq<u8>;

/// `ethers::providers::namehash`. The node is a function of the characters of the name
/// alone, and that of the empty name is all zeros.
#[verifier::external_body]
fn namehash(name: &str) -> (node: [u8; 32])
    ensures
        node@ == ens_node(name@),
        name@.len() == 0 ==> node@ == Seq::new(32, |i: int| 0u8),
{
    ethers::providers::namehash(name).0
}

/// The selector of `multicall(bytes[])`.
pub open spec fn multicall_selector() -> Seq<u8> {
    seq![0xac, 0x96, 0x50, 0xd8]
}

/// The selector of `resolve(bytes,bytes)`.
pub open spec fn resolve_selector() -> Seq<u8> {
    seq![0x90, 0x61, 0xb9, 0x23]
}

/// Calls as values in call data.
pub open spec fn call_values(calls: Seq<Seq<u8>>) -> Seq<AbiValue> {
    Seq::new(calls.len(), |i: int| AbiValue::Bytes(calls[i]))
}

/// The argument of `multicall`: the list of the calls.
pub open spec fn multicall_arguments(calls: Seq<Seq<u8>>) -> Seq<AbiValue> {
    seq![AbiValue::Array(call_values(calls))]
}

/// The call of `multicall` that makes all of `calls`.
pub open spec fn multicall_payload(calls: Seq<Seq<u8>>) -> Seq<u8> {
    multicall_selector() + abi_encoding(multicall_arguments(calls))
}

/// The call of `resolve` that makes all of `calls` on the resolver of the name with the
/// DNS wire form `dns_name`.
pub open spec fn universal_payload(dns_name: Seq<u8>, calls: Seq<Seq<u8>>) -> Seq<u8> {
    resolve_selector() + abi_encoding(
        seq![AbiValue::Bytes(dns_name), AbiValue::Bytes(multicall_payload(calls))],
    )
}

/// The bytes that `calls` take up as the items of a list.
pub open spec fn calls_len(calls: Seq<Seq<u8>>) -> nat
    decreases calls.len(),
{
    if calls.len() == 0 {
        0
    } else {
        calls_len(calls.drop_last()) + 64 + padded_len(calls.last().len())
    }
}

/// The bytes that the arguments of `resolve` take up, for a DNS wire form of `dns_len` bytes.
pub open spec fn universal_arguments_len(dns_len: nat, calls: Seq<Seq<u8>>) -> nat {
    64 + padded_len(dns_len) + 64 + padded_len(4 + 64 + calls_len(calls))
}

proof fn lemma_calls_len(calls: Seq<Seq<u8>>)
    ensures
        encoded_len(call_values(calls)) == calls_len(calls),
    decreases calls.len(),
{
    reveal_with_fuel(value_len, 2);
    reveal_with_fuel(encoded_len, 2);
    if calls.len() > 0 {
        lemma_calls_len(calls.drop_last());
        assert(call_values(calls).drop_last() =~= call_values(calls.drop_last()));
    }
}

proof fn lemma_calls_len_grows(calls: Seq<Seq<u8>>, n: int)
    requires
        0 <= n <= calls.len(),
    ensures
        calls_len(calls.take(n)) <= calls_len(calls),
    decreases calls.len() - n,
{
    if n < calls.len() {
        lemma_calls_len_grows(calls, n + 1);
        assert(calls.take(n + 1).drop_last() =~= calls.take(n));
    } else {
        assert(calls.take(n) =~= calls);
    }
}

/// Whether `calls` are what a lookup of the records `data` of a name makes: the call for its
/// address, `addr`, and then the one for each record, as `calldata` gives them for the node
/// of the name.
pub open spec fn are_lookup_calls<L, F: Fn(&L, &[u8; 32]) -> Vec<u8>>(
    name: Seq<char>,
    addr: L,
    data: Seq<L>,
    calldata: F,
    calls: Seq<Vec<u8>>,
) -> bool {
    &&& calls.len() == data.len() + 1
    &&& exists|node: [u8; 32]|
        #![trigger node@]
        node@ == ens_node(name) && call_ensures(calldata, (&addr, &node), calls[0]) && forall|i: int|
            0 <= i < data.len() ==> call_ensures(
                calldata,
                (&#[trigger] data[i], &node),
                calls[i + 1],
            )
}

/// Computes the calls that a lookup of the records `data` of a name makes: always the one
/// for its address, `addr`, and then one for each record. `calldata` says what the call for
/// a record is, given the node of the name.
pub fn lookup_calls<L, F: Fn(&L, &[u8; 32]) -> Vec<u8>>(
    name: &str,
    addr: &L,
    data: &[L],
    calldata: F,
) -> (calls: Vec<Vec<u8>>)
    requires
        forall|record: &L, node: &[u8; 32]| call_requires(calldata, (record, node)),
    ensures
        are_lookup_calls(name@, *addr, data@, calldata, calls@),
        calls@.len() == data@.len() + 1,
        exists|node: [u8; 32]|
            #![trigger node@]
            node@ == ens_node(name@) && call_ensures(calldata, (addr, &node), calls@[0])
                && forall|i: int|
                0 <= i < data@.len() ==> call_ensures(
                    calldata,
                    (&#[trigger] data@[i], &node),
                    calls@[i + 1],
                ),
{
    let node = namehash(name);
    let mut calls: Vec<Vec<u8>> = Vec::new();
    calls.push(calldata(addr, &node));
    let mut i: usize = 0;
    while i < data.len()
        invariant
            i <= data@.len(),
            calls@.len() == i + 1,
            forall|record: &L, node: &[u8; 32]| call_requires(calldata, (record, node)),
            call_ensures(calldata, (addr, &node), calls@[0]),
            forall|k: int|
                0 <= k < i ==> call_ensures(calldata, (&#[trigger] data@[k], &node), calls@[k + 1]),
        decreases data@.len() - i,
    {
        calls.push(calldata(&data[i], &node));
        i += 1;
    }
    assert(node@ == ens_node(name@));
    calls
}

/// Whether the arguments of `resolve` are short enough to be written, for a DNS wire form of
/// `dns_len` bytes: below 4 GiB, and below what the machine can reserve room for.
pub fn universal_request_fits(dns_len: usize, calls: &Vec<Vec<u8>>) -> (fits: bool)
    ensures
        fits == is_writable_len(universal_arguments_len(dns_len as nat, bytes_view(calls@))),
{
    let room: u64 = isize::MAX as u64 / 32;
    let limit: u64 = if room < 0xffff_ffff {
        room
    } else {
        0xffff_ffff
    };
    assert(forall|len: nat| is_writable_len(len) <==> len <= limit);
    if dns_len as u64 > limit {
        return false;
    }
    let mut total: u64 = 0;
    let mut i: usize = 0;
    let ghost all = bytes_view(calls@);
    assert(all.take(0) =~= Seq::empty());
    while i < calls.len()
        invariant
            i <= calls@.len(),
            limit <= 0xffff_ffff,
            forall|len: nat| is_writable_len(len) <==> len <= limit,
            all == bytes_view(calls@),
            total <= limit,
            total == calls_len(all.take(i as int)),
        decreases calls@.len() - i,
    {
        proof {
            assert(all.take(i + 1).drop_last() =~= all.take(i as int));
            assert(all.take(i + 1).last() == calls@[i as int]@);
            lemma_calls_len_grows(all, i + 1);
        }
        let len: u64 = calls[i].len() as u64;
        if len > limit {
            return false;
        }
        total = total + 64 + (len + 31) / 32 * 32;
        if total > limit {
            return false;
        }
        i += 1;
    }
    assert(all.take(calls@.len() as int) =~= all);
    let dns: u64 = dns_len as u64;
    128 + (dns + 31) / 32 * 32 + (68 + total + 31) / 32 * 32 <= limit
}

/// Writes the call of the universal resolver contract that makes `calls` for a name. Where
/// the name has no DNS wire form there is none to write.
#[verifier::spinoff_prover]
pub fn universal_request<C>(
    dns_name: Result<Vec<u8>, String>,
    calls: &Vec<Vec<u8>>,
    universal_resolver: &[u8; 20],
) -> (request: Result<CallRequest, ProfileError<C>>)
    requires
        dns_name matches Ok(dns_name) ==> is_writable_len(
            universal_arguments_len(dns_name@.len(), bytes_view(calls@)),
        ),
    ensures
        match dns_name {
            Ok(dns_name) => request matches Ok(request) && request.to == *universal_resolver
                && request.data@ == universal_payload(dns_name@, bytes_view(calls@))
                && request.data@.len() == 4 + universal_arguments_len(
                dns_name@.len(),
                bytes_view(calls@),
            ),
            Err(reason) => request matches Err(ProfileError::DNSEncodeError(given)) && given
                == reason,
        },
        dns_name matches Ok(dns_name) ==> (request matches Ok(request) && exists|
            items: Seq<AbiValue>,
        |
            items.len() == calls@.len() && (forall|i: int|
                0 <= i < items.len() ==> #[trigger] items[i] == AbiValue::Bytes(calls@[i]@))
                && request.data@ == seq![0x90u8, 0x61, 0xb9, 0x23] + abi_encoding(
                seq![
                    AbiValue::Bytes(dns_name@),
                    AbiValue::Bytes(
                        seq![0xacu8, 0x96, 0x50, 0xd8] + #[trigger] abi_encoding(
                            seq![AbiValue::Array(items)],
                        ),
                    ),
                ],
            )),
{
    let dns_name = match dns_name {
        Ok(dns_name) => dns_name,
        Err(reason) => return Err(ProfileError::DNSEncodeError(reason)),
    };
    let mut items: Vec<Token> = Vec::new();
    let mut i: usize = 0;
    while i < calls.len()
        invariant
            i <= calls@.len(),
            items@.len() == i,
            forall|k: int|
                0 <= k < i ==> token_value(#[trigger] items@[k]) == AbiValue::Bytes(calls@[k]@),
        decreases calls@.len() - i,
    {
        items.push(Token::Bytes(calls[i].clone()));
        i += 1;
    }
    let mut arguments: Vec<Token> = Vec::new();
    arguments.push(Token::Array(items));
    let ghost all = bytes_view(calls@);
    proof {
        reveal_with_fuel(token_value, 3);
        reveal_with_fuel(token_values, 3);
        reveal_with_fuel(encoded_len, 3);
        reveal_with_fuel(writable, 3);
        assert(token_values(items@) =~= call_values(all));
        assert(token_values(arguments@) =~= multicall_arguments(all));
        lemma_calls_len(all);
    }
    let mut encoded = ethers_core::abi::encode(arguments.as_slice());
    let mut payload: Vec<u8> = vec![0xac, 0x96, 0x50, 0xd8];
    payload.append(&mut encoded);
    assert(payload@ =~= multicall_payload(all));
    let mut arguments: Vec<Token> = Vec::new();
    arguments.push(Token::Bytes(dns_name));
    arguments.push(Token::Bytes(payload));
    proof {
        reveal_with_fuel(encoded_len, 3);
        assert(token_values(arguments@) =~= seq![
            AbiValue::Bytes(dns_name@),
            AbiValue::Bytes(multicall_payload(all)),
        ]);
        let values = token_values(arguments@);
        assert(values.drop_last().drop_last() =~= Seq::empty());
    }
    let mut encoded = ethers_core::abi::encode(arguments.as_slice());
    let mut data: Vec<u8> = vec![0x90, 0x61, 0xb9, 0x23];
    data.append(&mut encoded);
    assert(data@ =~= universal_payload(dns_name@, all));
    assert(data@ == seq![0x90u8, 0x61, 0xb9, 0x23] + abi_encoding(
        seq![
            AbiValue::Bytes(dns_name@),
            AbiValue::Bytes(
                seq![0xacu8, 0x96, 0x50, 0xd8] + abi_encoding(
                    seq![AbiValue::Array(call_values(all))],
                ),
            ),
        ],
    ));
    Ok(CallRequest { to: *universal_resolver, data })
}

/// Writes the call of the universal resolver contract that looks up the records `data` of a
/// name, and always its address, `addr`. `dns_name` is the DNS wire form of the name: where it
/// has none there is no call to write. `calldata` says what the call for a record is, given
/// the node of the name. A call whose arguments take up 4 GiB or more, or more than the
/// machine can reserve room for, cannot be written.
pub fn lookup_request<C, L, F: Fn(&L, &[u8; 32]) -> Vec<u8>>(
    name: &str,
    dns_name: Result<Vec<u8>, String>,
    addr: &L,
    data: &[L],
    calldata: F,
    universal_resolver: &[u8; 20],
) -> (request: Option<Result<CallRequest, ProfileError<C>>>)
    requires
        forall|record: &L, node: &[u8; 32]| call_requires(calldata, (record, node)),
    ensures
        match dns_name {
            Err(reason) => request == Some(
                Err::<CallRequest, ProfileError<C>>(ProfileError::DNSEncodeError(reason)),
            ),
            Ok(dns_name) => exists|calls: Seq<Vec<u8>>|
                #[trigger] are_lookup_calls(name@, *addr, data@, calldata, calls) && (
                if is_writable_len(
                    universal_arguments_len(dns_name@.len(), bytes_view(calls)),
                ) {
                    request matches Some(Ok(request)) && request.to == *universal_resolver
                        && request.data@ == universal_payload(dns_name@, bytes_view(calls))
                } else {
                    request is None
                }),
        },
{
    let dns_name = match dns_name {
        Ok(dns_name) => dns_name,
        Err(reason) => return Some(Err(ProfileError::DNSEncodeError(reason))),
    };
    let calls = lookup_calls(name, addr, data, calldata);
    assert(are_lookup_calls(name@, *addr, data@, calldata, calls@));
    if !universal_request_fits(dns_name.len(), &calls) {
        return None;
    }
    Some(universal_request(Ok(dns_name), &calls, universal_resolver))
}

/// The address of the resolver that serves DNS names from off the chain.
pub open spec fn offchain_dns_resolver() -> Seq<u8> {
    seq![
        0xf1,
        0x42,
        0xb3,
        0x08,
        0xcf,
        0x68,
        0x7d,
        0x43,
        0x58,
        0x41,
        0x0a,
        0x4c,
        0xb8,
        0x85,
        0x51,
        0x3b,
        0x30,
        0xa4,
        0x20,
        0x25,
    ]
}

/// The two values that `resolve` returns, `(bytes,address)`: the reply to the calls, and the
/// address of the resolver.
pub open spec fn resolve_reply(reply: Seq<u8>) -> Option<(Seq<u8>, Seq<u8>)> {
    match abi_decoding(seq![AbiKind::Bytes, AbiKind::Address], reply) {
        Some(values) => Some((values[0]->Bytes_0, values[1]->Address_0)),
        None => None,
    }
}

/// The values that `multicall` returns, `(bytes[])`: one answer for each call.
pub open spec fn multicall_reply(reply: Seq<u8>) -> Option<Seq<Seq<u8>>> {
    match abi_decoding(seq![AbiKind::Array(Box::new(AbiKind::Bytes))], reply) {
        Some(values) => {
            let answers = values[0]->Array_0;
            Some(Seq::new(answers.len(), |i: int| answers[i]->Bytes_0))
        },
        None => None,
    }
}

/// Whether an answer is a whole number of words, which tells a lookup that succeeded from one
/// that was reverted.
pub open spec fn is_success(answer: Seq<u8>) -> bool {
    answer.len() % 32 == 0
}

/// Whether a reply says that the name does not exist: there is no resolver for it, or it is
/// a DNS name served from off the chain that has no address.
pub open spec fn is_missing(answers: Seq<Seq<u8>>, resolver: Seq<u8>) -> bool {
    resolver == zero_address() || (resolver == offchain_dns_resolver() && !is_success(answers[0]))
}

/// The results of a lookup: the answers behind that for the address.
pub open spec fn lookup_results(answers: Seq<Seq<u8>>) -> Seq<(bool, Seq<u8>)> {
    Seq::new((answers.len() - 1) as nat, |i: int| (is_success(answers[i + 1]), answers[i + 1]))
}

/// Decodes what `resolve` returned into the answers to the calls and the address of the
/// resolver.
#[verifier::spinoff_prover]
pub fn read_reply<C>(reply: &[u8]) -> (read: Result<(Vec<Vec<u8>>, [u8; 20]), ProfileError<C>>)
    requires
        usize::BITS == 64,
    ensures
        match resolve_reply(reply@) {
            None => read matches Err(ProfileError::ImplementationError(message)) && message@
                == "ABI decode failed"@,
            Some((data, address)) => match multicall_reply(data) {
                None => read matches Err(ProfileError::ImplementationError(message)) && message@
                    == "multicall ABI decode failed"@,
                Some(answers) => read matches Ok((given, resolver)) && bytes_view(given@) == answers
                    && resolver@ == address,
            },
        },
        match abi_decoding(seq![AbiKind::Bytes, AbiKind::Address], reply@) {
            None => read is Err,
            Some(values) => match abi_decoding(
                seq![AbiKind::Array(Box::new(AbiKind::Bytes))],
                values[0]->Bytes_0,
            ) {
                None => read is Err,
                Some(lists) => read matches Ok((given, resolver)) && resolver@
                    == values[1]->Address_0 && given@.len() == lists[0]->Array_0.len()
                    && forall|i: int|
                    0 <= i < given@.len() ==> (#[trigger] given@[i])@
                        == lists[0]->Array_0[i]->Bytes_0,
            },
        },
        reply@.len() < 64 ==> resolve_reply(reply@) is None,
        resolve_reply(reply@) matches Some((data, _)) ==> (data.len() < 32 ==> multicall_reply(
            data,
        ) is None),
{
    let mut types: Vec<ParamType> = Vec::new();
    types.push(ParamType::Bytes);
    types.push(ParamType::Address);
    proof {
        reveal_with_fuel(type_kind, 2);
        reveal_with_fuel(type_kinds, 2);
        assert(type_kinds(types@) =~= seq![AbiKind::Bytes, AbiKind::Address]);
    }
    let mut decoded = match ethers_core::abi::decode(types.as_slice(), reply) {
        Ok(decoded) => decoded,
        Err(_) => return Err(ProfileError::ImplementationError("ABI decode failed".to_string())),
    };
    let ghost values = token_values(decoded@);
    proof {
        reveal_with_fuel(has_kind, 2);
        assert(has_kind(values[0], AbiKind::Bytes));
        assert(has_kind(values[1], AbiKind::Address));
    }
    let result_data = decoded.remove(0);
    let result_address = decoded.remove(0);
    let resolver: [u8; 20] = match result_address {
        Token::Address(address) => address.0,
        _ => unreached(),
    };
    let data: Vec<u8> = match result_data {
        Token::Bytes(data) => data,
        _ => unreached(),
    };
    let mut types: Vec<ParamType> = Vec::new();
    types.push(ParamType::Array(Box::new(ParamType::Bytes)));
    proof {
        reveal_with_fuel(type_kind, 3);
        reveal_with_fuel(readable, 3);
        assert(type_kinds(types@) =~= seq![AbiKind::Array(Box::new(AbiKind::Bytes))]);
    }
    let mut decoded = match ethers_core::abi::decode(types.as_slice(), data.as_slice()) {
        Ok(decoded) => decoded,
        Err(_) => return Err(
            ProfileError::ImplementationError("multicall ABI decode failed".to_string()),
        ),
    };
    let ghost values = token_values(decoded@);
    proof {
        reveal_with_fuel(has_kind, 3);
        assert(has_kind(values[0], AbiKind::Array(Box::new(AbiKind::Bytes))));
    }
    let mut answers: Vec<Vec<u8>> = Vec::new();
    if let Token::Array(tokens) = decoded.remove(0) {
        let ghost parts = token_values(tokens@);
        let mut i: usize = 0;
        while i < tokens.len()
            invariant
                i <= tokens@.len(),
                answers@.len() == i,
                parts == token_values(tokens@),
                forall|k: int| 0 <= k < parts.len() ==> (#[trigger] parts[k]) is Bytes,
                forall|k: int| 0 <= k < i ==> (#[trigger] answers@[k])@ == parts[k]->Bytes_0,
            decreases tokens@.len() - i,
        {
            assert(parts[i as int] == token_value(tokens@[i as int]));
            if let Token::Bytes(answer) = &tokens[i] {
                answers.push(answer.clone());
            }
            i += 1;
        }
    }
    assert(bytes_view(answers@) =~= multicall_reply(data@)->0);
    Ok((answers, resolver))
}

/// Judges the answers to the calls of a lookup: the name does not exist, or these are its
/// records, the address of its resolver, and the URLs that the gateway requests with the
/// call data `gateway_calldata` named, each once.
#[verifier::spinoff_prover]
pub fn universal_outcome<C>(
    answers: &Vec<Vec<u8>>,
    resolver: [u8; 20],
    gateway_calldata: &Vec<Vec<u8>>,
) -> (outcome: Result<(Vec<UniversalResolverResult>, [u8; 20], Vec<String>), ProfileError<C>>)
    requires
        answers@.len() > 0,
        usize::BITS == 64,
    ensures
        if is_missing(bytes_view(answers@), resolver@) {
            outcome matches Err(reason) && reason is NotFound
        } else {
            outcome matches Ok((results, address, urls)) && results_view(results@)
                == lookup_results(bytes_view(answers@)) && address == resolver && texts_view(urls@)
                == first_occurrences(requests_urls(bytes_view(gateway_calldata@)))
        },
        outcome matches Ok((_, address, _)) ==> address@ != zero_address(),
        outcome is Err <==> (forall|k: int| 0 <= k < 20 ==> resolver@[k] == 0) || (resolver@
            == seq![
                0xf1u8,
                0x42,
                0xb3,
                0x08,
                0xcf,
                0x68,
                0x7d,
                0x43,
                0x58,
                0x41,
                0x0a,
                0x4c,
                0xb8,
                0x85,
                0x51,
                0x3b,
                0x30,
                0xa4,
                0x20,
                0x25,
            ] && answers@[0]@.len() % 32 != 0),
        outcome matches Err(reason) ==> reason is NotFound,
        outcome matches Ok((results, address, _)) ==> address == resolver && results@.len()
            == answers@.len() - 1 && forall|i: int|
            0 <= i < results@.len() ==> (#[trigger] results@[i]).data@ == answers@[i + 1]@ && (
            results@[i].success <==> answers@[i + 1]@.len() % 32 == 0),
        outcome matches Ok((_, _, urls)) ==> (forall|i: int, j: int|
            0 <= i < j < urls@.len() ==> (#[trigger] urls@[i])@ != (#[trigger] urls@[j])@) && (
        forall|url: Seq<char>|
            #[trigger] texts_view(urls@).contains(url) <==> exists|i: int|
                0 <= i < gateway_calldata@.len() && #[trigger] request_urls(
                    gateway_calldata@[i]@,
                ).contains(url)),
{
    let mut results: Vec<UniversalResolverResult> = Vec::new();
    let mut i: usize = 1;
    while i < answers.len()
        invariant
            1 <= i <= answers@.len(),
            results@.len() == i - 1,
            forall|k: int|
                0 <= k < i - 1 ==> (#[trigger] results@[k])@ == lookup_results(
                    bytes_view(answers@),
                )[k],
        decreases answers@.len() - i,
    {
        let data = answers[i].clone();
        let success = data.len() % 32 == 0;
        results.push(UniversalResolverResult { success, data });
        i += 1;
    }
    assert(results_view(results@) =~= lookup_results(bytes_view(answers@)));
    let offchain_dns: [u8; 20] = [
        0xf1,
        0x42,
        0xb3,
        0x08,
        0xcf,
        0x68,
        0x7d,
        0x43,
        0x58,
        0x41,
        0x0a,
        0x4c,
        0xb8,
        0x85,
        0x51,
        0x3b,
        0x30,
        0xa4,
        0x20,
        0x25,
    ];
    assert(offchain_dns@ =~= offchain_dns_resolver());
    if is_zero_address(&resolver) || (same_address(&resolver, &offchain_dns) && answers[0].len()
        % 32 != 0) {
        return Err(ProfileError::NotFound);
    }
    let mut urls: Vec<String> = Vec::new();
    let mut i: usize = 0;
    let ghost requests = bytes_view(gateway_calldata@);
    assert(texts_view(urls@) =~= requests_urls(requests.take(0)));
    while i < gateway_calldata.len()
        invariant
            usize::BITS == 64,
            i <= gateway_calldata@.len(),
            requests == bytes_view(gateway_calldata@),
            texts_view(urls@) == requests_urls(requests.take(i as int)),
        decreases gateway_calldata@.len() - i,
    {
        proof {
            assert(requests.take(i + 1).drop_last() =~= requests.take(i as int));
            assert(requests.take(i + 1).last() == gateway_calldata@[i as int]@);
        }
        let ghost before = urls@;
        let mut found = urls_from_request(gateway_calldata[i].as_slice());
        let ghost added = found@;
        urls.append(&mut found);
        assert(texts_view(urls@) =~= texts_view(before) + texts_view(added));
        i += 1;
    }
    assert(requests.take(gateway_calldata@.len() as int) =~= requests);
    let urls = dedup_ord(urls.as_slice());
    proof {
        law_urls_are_those_of_the_requests(requests);
        let view = texts_view(urls@);
        assert forall|url: Seq<char>| #[trigger]
            view.contains(url) <==> exists|i: int|
                0 <= i < gateway_calldata@.len() && #[trigger] request_urls(
                    gateway_calldata@[i]@,
                ).contains(url) by {
            if view.contains(url) {
                let i = choose|i: int|
                    0 <= i < requests.len() && request_urls(#[trigger] requests[i]).contains(url);
                assert(request_urls(gateway_calldata@[i]@).contains(url));
            }
            if exists|i: int|
                0 <= i < gateway_calldata@.len() && #[trigger] request_urls(
                    gateway_calldata@[i]@,
                ).contains(url) {
                let i = choose|i: int|
                    0 <= i < gateway_calldata@.len() && #[trigger] request_urls(
                        gateway_calldata@[i]@,
                    ).contains(url);
                assert(request_urls(requests[i]).contains(url));
            }
        }
    }
    Ok((results, resolver, urls))
}

/// Judges the outcome of a call of the universal resolver contract: what the contract
/// returned together with the call data of the gateway requests that were made for it, or
/// how the call failed. There is no verdict on a reply without any answer: a
/// lookup makes at least one call.
#[verifier::spinoff_prover]
pub fn universal_response<C>(
    call: Result<(Vec<u8>, Vec<Vec<u8>>), CallFailure<C>>,
) -> (verdict: Option<
    Result<(Vec<UniversalResolverResult>, [u8; 20], Vec<String>), ProfileError<C>>,
>)
    requires
        usize::BITS == 64,
    ensures
        match call {
            Err(failure) => verdict == Some(
                Err::<(Vec<UniversalResolverResult>, [u8; 20], Vec<String>), _>(failure.reason()),
            ),
            Ok((reply, gateway_calldata)) => match resolve_reply(reply@) {
                None => verdict matches Some(Err(ProfileError::ImplementationError(message)))
                    && message@ == "ABI decode failed"@,
                Some((data, address)) => match multicall_reply(data) {
                    None => verdict matches Some(Err(ProfileError::ImplementationError(message)))
                        && message@ == "multicall ABI decode failed"@,
                    Some(answers) => if answers.len() == 0 {
                        verdict is None
                    } else if is_missing(answers, address) {
                        verdict matches Some(Err(reason)) && reason is NotFound
                    } else {
                        verdict matches Some(Ok((results, resolver, urls))) && results_view(
                            results@,
                        ) == lookup_results(answers) && resolver@ == address && texts_view(urls@)
                            == first_occurrences(requests_urls(bytes_view(gateway_calldata@)))
                    },
                },
            },
        },
        call matches Ok((reply, _)) ==> (reply@.len() < 64 ==> resolve_reply(reply@) is None),
        call matches Err(CallFailure::Gateway(error)) ==> verdict == Some(
            Err::<(Vec<UniversalResolverResult>, [u8; 20], Vec<String>), _>(
                ProfileError::CCIPError(error),
            ),
        ),
        call matches Err(CallFailure::Provider(error)) ==> verdict == Some(
            Err::<(Vec<UniversalResolverResult>, [u8; 20], Vec<String>), ProfileError<C>>(
                ProfileError::RPCError(error),
            ),
        ),
        call matches Err(CallFailure::JsonRpc { error, answered }) ==> verdict == Some(
            Err::<(Vec<UniversalResolverResult>, [u8; 20], Vec<String>), ProfileError<C>>(
                if answered {
                    ProfileError::NotFound
                } else {
                    ProfileError::RPCError(error)
                },
            ),
        ),
        call matches Ok((reply, gateway_calldata)) ==> match abi_decoding(
            seq![AbiKind::Bytes, AbiKind::Address],
            reply@,
        ) {
            None => verdict matches Some(Err(ProfileError::ImplementationError(message)))
                && message@ == "ABI decode failed"@,
            Some(values) => match abi_decoding(
                seq![AbiKind::Array(Box::new(AbiKind::Bytes))],
                values[0]->Bytes_0,
            ) {
                None => verdict matches Some(Err(ProfileError::ImplementationError(message)))
                    && message@ == "multicall ABI decode failed"@,
                Some(lists) => if lists[0]->Array_0.len() == 0 {
                    verdict is None
                } else if (forall|k: int| 0 <= k < 20 ==> values[1]->Address_0[k] == 0) || (
                values[1]->Address_0 == seq![
                0xf1u8,
                0x42,
                0xb3,
                0x08,
                0xcf,
                0x68,
                0x7d,
                0x43,
                0x58,
                0x41,
                0x0a,
                0x4c,
                0xb8,
                0x85,
                0x51,
                0x3b,
                0x30,
                0xa4,
                0x20,
                0x25,
            ] && lists[0]->Array_0[0]->Bytes_0.len() % 32 != 0) {
                    verdict matches Some(Err(reason)) && reason is NotFound
                } else {
                    verdict matches Some(Ok((results, resolver, urls))) && resolver@
                        == values[1]->Address_0 && results@.len() == lists[0]->Array_0.len() - 1
                        && (forall|i: int|
                        0 <= i < results@.len() ==> (#[trigger] results@[i]).data@
                            == lists[0]->Array_0[i + 1]->Bytes_0 && (results@[i].success
                            <==> results@[i].data@.len() % 32 == 0)) && (forall|url: Seq<char>|
                        #[trigger] texts_view(urls@).contains(url) <==> exists|i: int|
                            0 <= i < gateway_calldata@.len() && #[trigger] request_urls(
                                gateway_calldata@[i]@,
                            ).contains(url))
                },
            },
        },
{
    match call {
        Err(failure) => Some(Err(failure.into_reason())),
        Ok((reply, gateway_calldata)) => match read_reply(reply.as_slice()) {
            Err(reason) => Some(Err(reason)),
            Ok((answers, resolver)) => {
                assert(bytes_view(answers@).len() == answers@.len());
                assert(forall|i: int|
                    0 <= i < answers@.len() ==> #[trigger] bytes_view(answers@)[i] == answers@[i]@);
                if answers.len() == 0 {
                    None
                } else {
                    Some(universal_outcome(&answers, resolver, &gateway_calldata))
                }
            },
        },
    }
}

/// Each record of a lookup has its own result: where the contract gives one answer for each
/// call, the result at the place of a record is the answer to the call for that record.
pub proof fn law_each_record_has_its_result<L, F: Fn(&L, &[u8; 32]) -> Vec<u8>>(
    name: Seq<char>,
    addr: L,
    data: Seq<L>,
    calldata: F,
    calls: Seq<Vec<u8>>,
    answers: Seq<Seq<u8>>,
)
    requires
        are_lookup_calls(name, addr, data, calldata, calls),
        answers.len() == calls.len(),
    ensures
        lookup_results(answers).len() == data.len(),
        exists|node: [u8; 32]|
            #![trigger node@]
            node@ == ens_node(name) && forall|i: int|
                0 <= i < data.len() ==> call_ensures(
                    calldata,
                    (&#[trigger] data[i], &node),
                    calls[i + 1],
                ) && lookup_results(answers)[i] == (is_success(answers[i + 1]), answers[i + 1]),
{
}

/// The URLs of a lookup are those that some gateway request named, each once.
pub proof fn law_urls_are_those_of_the_requests(requests: Seq<Seq<u8>>)
    ensures
        first_occurrences(requests_urls(requests)).no_duplicates(),
        forall|url: Seq<char>|
            first_occurrences(requests_urls(requests)).contains(url) <==> exists|i: int|
                0 <= i < requests.len() && request_urls(#[trigger] requests[i]).contains(url),
{
    let all = requests_urls(requests);
    law_first_occurrences_are_the_items_once(all);
    lemma_requests_urls(requests);
    assert forall|url: Seq<char>|
        first_occurrences(all).contains(url) <==> exists|i: int|
            0 <= i < requests.len() && request_urls(#[trigger] requests[i]).contains(url) by {
        assert(first_occurrences(all).contains(url) <==> all.contains(url));
    }
}

proof fn lemma_requests_urls(requests: Seq<Seq<u8>>)
    ensures
        forall|url: Seq<char>|
            requests_urls(requests).contains(url) <==> exists|i: int|
                0 <= i < requests.len() && request_urls(#[trigger] requests[i]).contains(url),
    decreases requests.len(),
{
    if requests.len() > 0 {
        let rest = requests.drop_last();
        let before = requests_urls(rest);
        let added = request_urls(requests.last());
        lemma_requests_urls(rest);
        assert forall|url: Seq<char>|
            requests_urls(requests).contains(url) <==> exists|i: int|
                0 <= i < requests.len() && request_urls(#[trigger] requests[i]).contains(url) by {
            let all = before + added;
            if all.contains(url) {
                let k = choose|k: int| 0 <= k < all.len() && all[k] == url;
                if k < before.len() {
                    assert(before[k] == url);
                    assert(before.contains(url));
                    let i = choose|i: int|
                        0 <= i < rest.len() && request_urls(#[trigger] rest[i]).contains(url);
                    assert(requests[i] == rest[i]);
                } else {
                    assert(added[k - before.len()] == url);
                    assert(requests[requests.len() - 1] == requests.last());
                }
            }
            if exists|i: int|
                0 <= i < requests.len() && request_urls(#[trigger] requests[i]).contains(url) {
                let i = choose|i: int|
                    0 <= i < requests.len() && request_urls(#[trigger] requests[i]).contains(url);
                if i < rest.len() {
                    assert(request_urls(rest[i]).contains(url));
                    assert(before.contains(url));
                    let k = choose|k: int| 0 <= k < before.len() && before[k] == url;
                    assert(all[k] == url);
                } else {
                    let k = choose|k: int| 0 <= k < added.len() && added[k] == url;
                    assert(all[before.len() + k] == url);
                }
            }
        }
    }
}

/// Texts stay, other values go: a text is among the texts of values exactly where it is
/// one of the values, however long it is.
pub proof fn law_texts_are_among_the_values(values: Seq<AbiValue>)
    ensures
        forall|text: Seq<char>|
            texts_in(values).contains(text) <==> exists|i: int|
                0 <= i < values.len() && #[trigger] values[i] == AbiValue::Text(text),
    decreases values.len(),
{
    if values.len() > 0 {
        let rest = values.drop_last();
        let before = texts_in(rest);
        let all = texts_in(values);
        law_texts_are_among_the_values(rest);
        assert forall|text: Seq<char>|
            all.contains(text) <==> exists|i: int|
                0 <= i < values.len() && #[trigger] values[i] == AbiValue::Text(text) by {
            if all.contains(text) {
                let k = choose|k: int| 0 <= k < all.len() && all[k] == text;
                if k < before.len() {
                    assert(before[k] == text);
                    assert(before.contains(text));
                    let i = choose|i: int|
                        0 <= i < rest.len() && #[trigger] rest[i] == AbiValue::Text(text);
                    assert(values[i] == AbiValue::Text(text));
                } else {
                    assert(values[values.len() - 1] == AbiValue::Text(text));
                }
            }
            if exists|i: int|
                0 <= i < values.len() && #[trigger] values[i] == AbiValue::Text(text) {
                let i = choose|i: int|
                    0 <= i < values.len() && #[trigger] values[i] == AbiValue::Text(text);
                if i < rest.len() {
                    assert(rest[i] == AbiValue::Text(text));
                    assert(before.contains(text));
                    let k = choose|k: int| 0 <= k < before.len() && before[k] == text;
                    assert(all[k] == text);
                } else {
                    assert(all[before.len() as int] == text);
                }
            }
        }
    }
}

/// Where all values are texts, none is lost and each keeps its place.
pub proof fn law_texts_keep_their_places(values: Seq<AbiValue>)
    requires
        forall|i: int| 0 <= i < values.len() ==> (#[trigger] values[i]) is Text,
    ensures
        texts_in(values).len() == values.len(),
        forall|i: int|
            0 <= i < values.len() ==> AbiValue::Text(#[trigger] texts_in(values)[i]) == values[i],
    decreases values.len(),
{
    if values.len() > 0 {
        let rest = values.drop_last();
        assert forall|i: int| 0 <= i < rest.len() implies (#[trigger] rest[i]) is Text by {
            assert(values[i] is Text);
        }
        law_texts_keep_their_places(rest);
        assert(values[values.len() - 1] is Text);
        assert forall|i: int| 0 <= i < values.len() implies AbiValue::Text(
            #[trigger] texts_in(values)[i],
        ) == values[i] by {
            if i < rest.len() {
                assert(texts_in(values)[i] == texts_in(rest)[i]);
                assert(rest[i] == values[i]);
            }
        }
    }
}

/// The texts of two lists of values, one behind the other, are those of the first and then
/// those of the second. A text alone gives itself, and any other value gives none.
pub proof fn law_texts_part_by_part(a: Seq<AbiValue>, b: Seq<AbiValue>, value: AbiValue)
    ensures
        texts_in(a + b) == texts_in(a) + texts_in(b),
        value matches AbiValue::Text(text) ==> texts_in(seq![value]) == seq![text],
        !(value is Text) ==> texts_in(seq![value]).len() == 0,
    decreases b.len(),
{
    reveal_with_fuel(texts_in, 2);
    assert(seq![value].drop_last() =~= Seq::empty());
    if b.len() == 0 {
        assert(a + b =~= a);
        assert(texts_in(b) =~= Seq::empty());
    } else {
        law_texts_part_by_part(a, b.drop_last(), value);
        assert((a + b).drop_last() =~= a + b.drop_last());
        assert(texts_in(a + b) =~= texts_in(a) + texts_in(b));
    }
}

/// A query names the texts of the list at its second place, and a value of another shape
/// names none.
pub proof fn law_query_names_its_urls(query: AbiValue, fields: Seq<AbiValue>, urls: Seq<AbiValue>)
    ensures
        fields.len() > 1 && fields[1] == AbiValue::Array(urls) ==> query_urls(
            AbiValue::Tuple(fields),
        ) == texts_in(urls),
        query_urls(query).len() > 0 ==> query is Tuple && query->Tuple_0.len() > 1
            && query->Tuple_0[1] is Array,
{
}

/// The URLs of two lists of queries, one behind the other, are those of the first and then
/// those of the second, and a query alone gives its own.
pub proof fn law_queries_part_by_part(a: Seq<AbiValue>, b: Seq<AbiValue>, query: AbiValue)
    ensures
        queries_urls(a + b) == queries_urls(a) + queries_urls(b),
        queries_urls(seq![query]) == query_urls(query),
    decreases b.len(),
{
    reveal_with_fuel(queries_urls, 2);
    assert(seq![query].drop_last() =~= Seq::empty());
    assert(queries_urls(seq![query]) =~= query_urls(query));
    if b.len() == 0 {
        assert(a + b =~= a);
        assert(queries_urls(a + b) =~= queries_urls(a) + queries_urls(b));
    } else {
        law_queries_part_by_part(a, b.drop_last(), query);
        assert((a + b).drop_last() =~= a + b.drop_last());
        assert(queries_urls(a + b) =~= queries_urls(a) + queries_urls(b));
    }
}

/// A batch names the URLs of the queries in the list at its first place, and anything else
/// names none.
pub proof fn law_batch_names_its_queries(decoded: Seq<AbiValue>, queries: Seq<AbiValue>)
    ensures
        decoded.len() > 0 && decoded[0] == AbiValue::Array(queries) ==> batch_urls(decoded)
            == queries_urls(queries),
        batch_urls(decoded).len() > 0 ==> decoded.len() > 0 && decoded[0] is Array,
{
}

/// A gateway request names the URLs of the batch `(address,string[],bytes)[]` behind its
/// selector of four bytes, whatever the selector is, and none where there is no such batch.
pub proof fn law_request_names_its_batch(
    calldata: Seq<u8>,
    selector: Seq<u8>,
    arguments: Seq<u8>,
)
    requires
        selector.len() == 4,
    ensures
        calldata.len() < 4 ==> request_urls(calldata).len() == 0,
        match abi_decoding(
            seq![
                AbiKind::Array(
                    Box::new(
                        AbiKind::Tuple(
                            seq![
                                AbiKind::Address,
                                AbiKind::Array(Box::new(AbiKind::Text)),
                                AbiKind::Bytes,
                            ],
                        ),
                    ),
                ),
            ],
            arguments,
        ) {
            Some(decoded) => request_urls(selector + arguments) == batch_urls(decoded),
            None => request_urls(selector + arguments).len() == 0,
        },
{
    let whole = selector + arguments;
    assert(whole.subrange(4, whole.len() as int) =~= arguments);
}

/// The URLs of two lists of requests, one behind the other, are those of the first and then
/// those of the second, and a request alone gives its own.
pub proof fn law_requests_part_by_part(a: Seq<Seq<u8>>, b: Seq<Seq<u8>>, request: Seq<u8>)
    ensures
        requests_urls(a + b) == requests_urls(a) + requests_urls(b),
        requests_urls(seq![request]) == request_urls(request),
    decreases b.len(),
{
    reveal_with_fuel(requests_urls, 2);
    assert(seq![request].drop_last() =~= Seq::empty());
    assert(requests_urls(seq![request]) =~= request_urls(request));
    if b.len() == 0 {
        assert(a + b =~= a);
        assert(requests_urls(a + b) =~= requests_urls(a) + requests_urls(b));
    } else {
        law_requests_part_by_part(a, b.drop_last(), request);
        assert((a + b).drop_last() =~= a + b.drop_last());
        assert(requests_urls(a + b) =~= requests_urls(a) + requests_urls(b));
    }
}

/// A request hands the contract every call once, in the order of the calls, byte by byte,
/// inside `multicall` inside `resolve`.
pub proof fn law_request_hands_over_the_calls(
    dns_name: Seq<u8>,
    calls: Seq<Seq<u8>>,
    items: Seq<AbiValue>,
)
    requires
        items.len() == calls.len(),
        forall|i: int|
            0 <= i < items.len() ==> #[trigger] items[i] == AbiValue::Bytes(calls[i]),
    ensures
        multicall_payload(calls) == seq![0xacu8, 0x96, 0x50, 0xd8] + abi_encoding(
            seq![AbiValue::Array(items)],
        ),
        universal_payload(dns_name, calls) == seq![0x90u8, 0x61, 0xb9, 0x23] + abi_encoding(
            seq![
                AbiValue::Bytes(dns_name),
                AbiValue::Bytes(
                    seq![0xacu8, 0x96, 0x50, 0xd8] + abi_encoding(seq![AbiValue::Array(items)]),
                ),
            ],
        ),
{
    assert(items =~= call_values(calls));
}

/// Calls take up what each of them does: two words, and its bytes padded to whole words.
pub proof fn law_calls_len_part_by_part(
    a: Seq<Seq<u8>>,
    b: Seq<Seq<u8>>,
    call: Seq<u8>,
    dns_len: nat,
)
    ensures
        calls_len(a + b) == calls_len(a) + calls_len(b),
        calls_len(seq![call]) % 32 == 0,
        64 + call.len() <= calls_len(seq![call]) < 96 + call.len(),
        universal_arguments_len(dns_len, a) % 32 == 0,
        universal_arguments_len(dns_len, a) == 128 + padded_len(dns_len) + padded_len(
            68 + calls_len(a),
        ),
    decreases b.len(),
{
    reveal_with_fuel(calls_len, 2);
    assert(seq![call].drop_last() =~= Seq::empty());
    if b.len() == 0 {
        assert(a + b =~= a);
    } else {
        law_calls_len_part_by_part(a, b.drop_last(), call, dns_len);
        assert((a + b).drop_last() =~= a + b.drop_last());
    }
}

/// The calls of a lookup are the one for the address, and then one for each record at its
/// place, all for the node of the name.
pub proof fn law_lookup_calls_by_place<L, F: Fn(&L, &[u8; 32]) -> Vec<u8>>(
    name: Seq<char>,
    addr: L,
    data: Seq<L>,
    calldata: F,
    calls: Seq<Vec<u8>>,
)
    ensures
        are_lookup_calls(name, addr, data, calldata, calls) <==> calls.len() == data.len() + 1
            && exists|node: [u8; 32]|
            #![trigger node@]
            node@ == ens_node(name) && call_ensures(calldata, (&addr, &node), calls[0])
                && forall|i: int|
                0 <= i < data.len() ==> call_ensures(
                    calldata,
                    (&#[trigger] data[i], &node),
                    calls[i + 1],
                ),
{
}

/// A lookup succeeded exactly where its answer is a whole number of words, however many.
pub proof fn law_success_is_whole_words(answer: Seq<u8>, words: nat, rest: nat)
    requires
        answer.len() == 32 * words + rest,
        rest < 32,
    ensures
        is_success(answer) <==> rest == 0,
{
}

/// A name is missing exactly where its resolver is all zeros, or where its resolver is the one
/// that serves DNS names and the answer for the address is no whole number of words.
pub proof fn law_missing_names(answers: Seq<Seq<u8>>, resolver: Seq<u8>)
    ensures
        is_missing(answers, resolver) <==> (resolver.len() == 20 && forall|k: int|
            0 <= k < 20 ==> resolver[k] == 0) || (resolver == seq![
                0xf1u8,
                0x42,
                0xb3,
                0x08,
                0xcf,
                0x68,
                0x7d,
                0x43,
                0x58,
                0x41,
                0x0a,
                0x4c,
                0xb8,
                0x85,
                0x51,
                0x3b,
                0x30,
                0xa4,
                0x20,
                0x25,
            ] && answers[0].len() % 32 != 0),
{
    law_zero_address_is_zeros(resolver);
    assert(offchain_dns_resolver() =~= seq![
                0xf1u8,
                0x42,
                0xb3,
                0x08,
                0xcf,
                0x68,
                0x7d,
                0x43,
                0x58,
                0x41,
                0x0a,
                0x4c,
                0xb8,
                0x85,
                0x51,
                0x3b,
                0x30,
                0xa4,
                0x20,
                0x25,
            ]);
}

/// The results are the answers behind the first, whole and in their order, each with whether it
/// is a whole number of words.
pub proof fn law_results_are_the_later_answers(answers: Seq<Seq<u8>>)
    requires
        answers.len() > 0,
    ensures
        lookup_results(answers).len() == answers.len() - 1,
        forall|i: int|
            0 <= i < answers.len() - 1 ==> (#[trigger] lookup_results(answers)[i]).1
                == answers[i + 1] && (lookup_results(answers)[i].0 <==> answers[i + 1].len() % 32 == 0),
{
}

/// A result is seen as its flag and its bytes.
pub proof fn law_results_are_seen_whole(results: Seq<UniversalResolverResult>)
    ensures
        results_view(results).len() == results.len(),
        forall|i: int|
            0 <= i < results.len() ==> (#[trigger] results_view(results)[i]).0 == results[i].success
                && results_view(results)[i].1 == results[i].data@,
{
}

/// What `resolve` and `multicall` return is read at its place: the reply first and the address
/// of the resolver second, and the answers one by one.
pub proof fn law_replies_are_read_in_place(reply: Seq<u8>)
    ensures
        match abi_decoding(seq![AbiKind::Bytes, AbiKind::Address], reply) {
            Some(values) => resolve_reply(reply) == Some(
                (values[0]->Bytes_0, values[1]->Address_0),
            ),
            None => resolve_reply(reply) is None,
        },
        match abi_decoding(seq![AbiKind::Array(Box::new(AbiKind::Bytes))], reply) {
            Some(values) => multicall_reply(reply) matches Some(answers) && answers.len()
                == values[0]->Array_0.len() && forall|i: int|
                0 <= i < answers.len() ==> #[trigger] answers[i] == values[0]->Array_0[i]->Bytes_0,
            None => multicall_reply(reply) is None,
        },
{
}

} // verus!
