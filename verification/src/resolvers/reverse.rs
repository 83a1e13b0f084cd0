//! Looking up the primary name of an address.
use ethers::providers::ProviderError;
use ethers_core::abi::{ParamType, Token};
use vstd::pervasive::unreached;
use vstd::prelude::*;
use vstd::string::StringExecFns;

use crate::abi::{
    abi_decoding, abi_encoding, encoded_len, has_kind, have_kinds, token_value, token_values,
    type_kind, type_kinds, u256_from_u64, AbiKind, AbiValue,
};
use crate::resolvers::CallRequest;
use crate::utils::{is_zero_address, law_zero_address_is_zeros, zero_address};

verus! {

/// Why an address has no primary name to show.
#[derive(Debug)]
pub enum ReverseResolveError {
    /// The address has no primary name.
    MissingPrimaryName,
    /// The address of the name is not the address that was looked up.
    AddressMismatch,
    /// The contract could not be called, and why.
    AddressLookupError(String),
    /// The chain could not be asked.
    RPCError(ProviderError),
    /// The reply was not what the contract promises.
    AbiDecodeError(ethers_core::abi::Error),
}

impl ReverseResolveError {
    /// The text to show for the error. `cause` is the text of the error of the provider or
    /// the ABI coder, for an error that wraps one.
    pub open spec fn text(self, cause: Seq<char>) -> Seq<char> {
        match self {
            ReverseResolveError::MissingPrimaryName => "Address doesn't have a primary name"@,
            ReverseResolveError::AddressMismatch =>
                "Address on name doesn't match with lookup address"@,
            ReverseResolveError::AddressLookupError(reason) =>
                "Failed to lookup address for reverse record: "@ + reason@,
            ReverseResolveError::RPCError(_) => "RPC provider error: "@ + cause,
            ReverseResolveError::AbiDecodeError(_) => "ABI decode error: "@ + cause,
        }
    }

    /// Writes the text to show for the error. `cause` is the text of the error of the
    /// provider or the ABI coder, for an error that wraps one.
    pub fn to_string(&self, cause: &str) -> (text: String)
        ensures
            text@ == self.text(cause@),
            self is MissingPrimaryName ==> text@ == "Address doesn't have a primary name"@,
            self is AddressMismatch ==> text@
                == "Address on name doesn't match with lookup address"@,
            self matches ReverseResolveError::AddressLookupError(reason) ==> text@
                == "Failed to lookup address for reverse record: "@ + reason@,
            self is RPCError ==> text@ == "RPC provider error: "@ + cause@,
            self is AbiDecodeError ==> text@ == "ABI decode error: "@ + cause@,
    {
        match self {
            ReverseResolveError::MissingPrimaryName =>
                "Address doesn't have a primary name".to_string(),
            ReverseResolveError::AddressMismatch =>
                "Address on name doesn't match with lookup address".to_string(),
            ReverseResolveError::AddressLookupError(reason) =>
                "Failed to lookup address for reverse record: ".to_string().concat(reason.as_str()),
            ReverseResolveError::RPCError(_) => "RPC provider error: ".to_string().concat(cause),
            ReverseResolveError::AbiDecodeError(_) => "ABI decode error: ".to_string().concat(cause),
        }
    }
}

impl From<ProviderError> for ReverseResolveError {
    fn from(error: ProviderError) -> (reason: Self)
        ensures
            reason == ReverseResolveError::RPCError(error),
    {
        ReverseResolveError::RPCError(error)
    }
}

impl vstd::std_specs::convert::FromSpecImpl<ProviderError> for ReverseResolveError {
    open spec fn obeys_from_spec() -> bool {
        true
    }

    open spec fn from_spec(error: ProviderError) -> Self {
        ReverseResolveError::RPCError(error)
    }
}

impl From<ethers_core::abi::Error> for ReverseResolveError {
    fn from(error: ethers_core::abi::Error) -> (reason: Self)
        ensures
            reason == ReverseResolveError::AbiDecodeError(error),
    {
        ReverseResolveError::AbiDecodeError(error)
    }
}

impl vstd::std_specs::convert::FromSpecImpl<ethers_core::abi::Error> for ReverseResolveError {
    open spec fn obeys_from_spec() -> bool {
        true
    }

    open spec fn from_spec(error: ethers_core::abi::Error) -> Self {
        ReverseResolveError::AbiDecodeError(error)
    }
}

/// The coin type of Ether.
pub const ETH_COIN_TYPE: u64 = 60;

/// The selector of `reverse(bytes,uint256)`.
pub open spec fn reverse_selector() -> Seq<u8> {
    seq![0x5d, 0x78, 0xa2, 0x17]
}

/// The call of `reverse` for an address on the chain of a coin type.
pub open spec fn reverse_payload(address: Seq<u8>, coin_type: u64) -> Seq<u8> {
    reverse_selector() + abi_encoding(
        seq![AbiValue::Bytes(address), AbiValue::Uint(coin_type as nat)],
    )
}

/// The sorts of value that `reverse` returns.
pub open spec fn reverse_kinds() -> Seq<AbiKind> {
    seq![AbiKind::Text, AbiKind::Address, AbiKind::Address]
}

/// The values that `reverse` returns, `(string,address,address)`: the name, the address of
/// its resolver, and the address of the reverse resolver.
pub open spec fn reverse_reply(reply: Seq<u8>) -> Option<(Seq<char>, Seq<u8>, Seq<u8>)> {
    match abi_decoding(reverse_kinds(), reply) {
        Some(values) => Some((values[0]->Text_0, values[1]->Address_0, values[2]->Address_0)),
        None => None,
    }
}

/// Writes the call of the universal resolver contract that looks up the primary name of an
/// address on the main chain.
pub fn reverse_request(address: &[u8; 20], universal_resolver: &[u8; 20]) -> (request: CallRequest)
    ensures
        request.to == *universal_resolver,
        request.data@ == reverse_payload(address@, ETH_COIN_TYPE),
        request.data@ == seq![0x5du8, 0x78, 0xa2, 0x17] + abi_encoding(
            seq![AbiValue::Bytes(address@), AbiValue::Uint(60)],
        ),
        request.data@.len() == 132,
{
    reverse_request_coin_type(address, ETH_COIN_TYPE, universal_resolver)
}

/// Writes the call of the universal resolver contract that looks up the primary name of an
/// address on the chain of a coin type.
pub fn reverse_request_coin_type(
    address: &[u8; 20],
    coin_type: u64,
    universal_resolver: &[u8; 20],
) -> (request: CallRequest)
    ensures
        request.to == *universal_resolver,
        request.data@ == reverse_payload(address@, coin_type),
        request.data@ == seq![0x5du8, 0x78, 0xa2, 0x17] + abi_encoding(
            seq![AbiValue::Bytes(address@), AbiValue::Uint(coin_type as nat)],
        ),
        request.data@.len() == 132,
{
    let mut bytes: Vec<u8> = Vec::new();
    let mut i: usize = 0;
    while i < 20
        invariant
            i <= 20,
            bytes@ == address@.take(i as int),
        decreases 20 - i,
    {
        bytes.push(address[i]);
        assert(bytes@ =~= address@.take(i + 1));
        i += 1;
    }
    assert(bytes@ =~= address@);
    let mut arguments: Vec<Token> = Vec::new();
    arguments.push(Token::Bytes(bytes));
    arguments.push(Token::Uint(u256_from_u64(coin_type)));
    proof {
        reveal_with_fuel(encoded_len, 3);
        let values = token_values(arguments@);
        assert(values =~= seq![AbiValue::Bytes(address@), AbiValue::Uint(coin_type as nat)]);
        assert(values.drop_last().drop_last() =~= Seq::empty());
    }
    let mut encoded = ethers_core::abi::encode(arguments.as_slice());
    let mut data: Vec<u8> = vec![0x5d, 0x78, 0xa2, 0x17];
    data.append(&mut encoded);
    assert(data@ =~= reverse_payload(address@, coin_type));
    CallRequest { to: *universal_resolver, data }
}

/// Judges a name and its resolver as `reverse` returned them: the empty name is none, and a
/// resolver of all zeros means that the name leads elsewhere.
pub fn primary_name(name: String, resolver: &[u8; 20]) -> (verdict: Result<
    String,
    ReverseResolveError,
>)
    ensures
        if name@.len() == 0 {
            verdict == Err::<String, _>(ReverseResolveError::MissingPrimaryName)
        } else if resolver@ == zero_address() {
            verdict == Err::<String, _>(ReverseResolveError::AddressMismatch)
        } else {
            verdict == Ok::<_, ReverseResolveError>(name)
        },
        verdict is Ok <==> name@.len() > 0 && exists|k: int| 0 <= k < 20 && resolver@[k] != 0,
        verdict matches Ok(given) ==> given == name,
        verdict matches Err(reason) ==> if name@.len() == 0 {
            reason is MissingPrimaryName
        } else {
            reason is AddressMismatch
        },
{
    if name.as_str().is_empty() {
        return Err(ReverseResolveError::MissingPrimaryName);
    }
    if is_zero_address(resolver) {
        return Err(ReverseResolveError::AddressMismatch);
    }
    Ok(name)
}

/// Judges what `reverse` returned, once it is decoded, or why it could not be.
pub fn reverse_verdict(decoded: Result<Vec<Token>, ethers_core::abi::Error>) -> (verdict: Result<
    String,
    ReverseResolveError,
>)
    requires
        decoded matches Ok(tokens) ==> have_kinds(token_values(tokens@), reverse_kinds()),
    ensures
        match decoded {
            Err(error) => verdict == Err::<String, _>(ReverseResolveError::AbiDecodeError(error)),
            Ok(tokens) => {
                let name = token_value(tokens@[0])->Text_0;
                let resolver = token_value(tokens@[1])->Address_0;
                if name.len() == 0 {
                    verdict == Err::<String, _>(ReverseResolveError::MissingPrimaryName)
                } else if resolver == zero_address() {
                    verdict == Err::<String, _>(ReverseResolveError::AddressMismatch)
                } else {
                    verdict matches Ok(given) && given@ == name
                }
            },
        },
        decoded matches Ok(tokens) ==> (tokens@[0] matches Token::String(name) && tokens@[1] matches
            Token::Address(resolver) && if name@.len() == 0 {
            verdict matches Err(reason) && reason is MissingPrimaryName
        } else if forall|k: int| 0 <= k < 20 ==> resolver.0@[k] == 0 {
            verdict matches Err(reason) && reason is AddressMismatch
        } else {
            verdict matches Ok(given) && given@ == name@
        }),
{
    let mut decoded = match decoded {
        Ok(decoded) => decoded,
        Err(error) => return Err(ReverseResolveError::from(error)),
    };
    proof {
        let values = token_values(decoded@);
        assert(has_kind(values[0], reverse_kinds()[0]));
        assert(has_kind(values[1], reverse_kinds()[1]));
    }
    let name: String = match decoded.remove(0) {
        Token::String(name) => name,
        _ => unreached(),
    };
    let resolver: [u8; 20] = match decoded.remove(0) {
        Token::Address(address) => address.0,
        _ => unreached(),
    };
    primary_name(name, &resolver)
}

/// Whether `error` is what `ethers_core::abi::decode` reports for a reply of `reverse`.
pub open spec fn refused_with(reply: Seq<u8>, error: ethers_core::abi::Error) -> bool {
    exists|types: &[ParamType], data: &[u8]|
        type_kinds(types@) == reverse_kinds() && data@ == reply && #[trigger] call_ensures(
            ethers_core::abi::decode,
            (types, data),
            Err::<Vec<Token>, _>(error),
        )
}

/// Judges the outcome of a call of `reverse`: what the contract returned, or why the call
/// failed.
#[verifier::spinoff_prover]
pub fn reverse_response(call: Result<Vec<u8>, String>) -> (verdict: Result<
    String,
    ReverseResolveError,
>)
    requires
        usize::BITS == 64,
    ensures
        match call {
            Err(reason) => verdict == Err::<String, _>(
                ReverseResolveError::AddressLookupError(reason),
            ),
            Ok(reply) => match reverse_reply(reply@) {
                None => verdict matches Err(ReverseResolveError::AbiDecodeError(error))
                    && refused_with(reply@, error),
                Some((name, resolver, _)) => if name.len() == 0 {
                    verdict == Err::<String, _>(ReverseResolveError::MissingPrimaryName)
                } else if resolver == zero_address() {
                    verdict == Err::<String, _>(ReverseResolveError::AddressMismatch)
                } else {
                    verdict matches Ok(given) && given@ == name
                },
            },
        },
        call matches Ok(reply) ==> (abi_decoding(
            seq![AbiKind::Text, AbiKind::Address, AbiKind::Address],
            reply@,
        ) is None ==> (verdict matches Err(ReverseResolveError::AbiDecodeError(error)) && exists|
            types: &[ParamType],
            data: &[u8],
        |
            type_kinds(types@) == seq![AbiKind::Text, AbiKind::Address, AbiKind::Address] && data@
                == reply@ && #[trigger] call_ensures(
                ethers_core::abi::decode,
                (types, data),
                Err::<Vec<Token>, _>(error),
            ))),
        call matches Ok(reply) ==> (abi_decoding(
            seq![AbiKind::Text, AbiKind::Address, AbiKind::Address],
            reply@,
        ) matches Some(values) ==> (values[0]->Text_0.len() == 0 ==> (verdict matches Err(reason)
            && reason is MissingPrimaryName))),
        call matches Ok(reply) ==> (abi_decoding(
            seq![AbiKind::Text, AbiKind::Address, AbiKind::Address],
            reply@,
        ) matches Some(values) ==> (values[0]->Text_0.len() > 0 && (forall|k: int|
            0 <= k < 20 ==> values[1]->Address_0[k] == 0) ==> (verdict matches Err(reason)
            && reason is AddressMismatch))),
        call matches Ok(reply) ==> (abi_decoding(
            seq![AbiKind::Text, AbiKind::Address, AbiKind::Address],
            reply@,
        ) matches Some(values) ==> (values[0]->Text_0.len() > 0 && (exists|k: int|
            0 <= k < 20 && values[1]->Address_0[k] != 0) ==> (verdict matches Ok(given) && given@
            == values[0]->Text_0))),
        call matches Ok(reply) ==> (reply@.len() < 96 ==> verdict matches Err(
            ReverseResolveError::AbiDecodeError(_),
        )),
{
    let reply = match call {
        Ok(reply) => reply,
        Err(reason) => return Err(ReverseResolveError::AddressLookupError(reason)),
    };
    let mut types: Vec<ParamType> = Vec::new();
    types.push(ParamType::String);
    types.push(ParamType::Address);
    types.push(ParamType::Address);
    proof {
        reveal_with_fuel(type_kind, 2);
        reveal_with_fuel(type_kinds, 2);
        assert(type_kinds(types@) =~= reverse_kinds());
    }
    let types = types.as_slice();
    let data = reply.as_slice();
    let decoded = ethers_core::abi::decode(types, data);
    assert(type_kinds(types@) == reverse_kinds());
    assert(data@ == reply@);
    assert(decoded matches Err(error) ==> refused_with(reply@, error)) by {
        if decoded is Err {
            assert(call_ensures(
                ethers_core::abi::decode,
                (types, data),
                Err::<Vec<Token>, _>(decoded->Err_0),
            ));
        }
    }
    let ghost outcome = decoded;
    let verdict = reverse_verdict(decoded);
    proof {
        let kinds = seq![AbiKind::Text, AbiKind::Address, AbiKind::Address];
        assert(reverse_kinds() =~= kinds);
        if outcome is Err {
            assert(abi_decoding(kinds, reply@) is None);
            law_refusals_come_from_the_coder(reply@, outcome->Err_0);
        } else {
            let values = token_values(outcome->Ok_0@);
            assert(abi_decoding(kinds, reply@) == Some(values));
            assert(values[0] == token_value(outcome->Ok_0@[0]));
            assert(values[1] == token_value(outcome->Ok_0@[1]));
            assert(has_kind(values[1], reverse_kinds()[1]));
            law_zero_address_is_zeros(values[1]->Address_0);
            assert(values[1]->Address_0 == zero_address() <==> forall|k: int|
                0 <= k < 20 ==> values[1]->Address_0[k] == 0);
        }
    }
    verdict
}

/// A request hands the contract the address, byte by byte, and the number of the coin type.
pub proof fn law_request_hands_over_the_address(address: Seq<u8>, coin_type: u64)
    ensures
        reverse_payload(address, coin_type) == seq![0x5du8, 0x78, 0xa2, 0x17] + abi_encoding(
            seq![AbiValue::Bytes(address), AbiValue::Uint(coin_type as nat)],
        ),
        ETH_COIN_TYPE == 60,
{
}

/// What `reverse` returns is read at its place: the name first, then the address of its
/// resolver and that of the reverse resolver.
pub proof fn law_reply_is_read_in_place(reply: Seq<u8>)
    ensures
        match abi_decoding(seq![AbiKind::Text, AbiKind::Address, AbiKind::Address], reply) {
            Some(values) => reverse_reply(reply) == Some(
                (values[0]->Text_0, values[1]->Address_0, values[2]->Address_0),
            ),
            None => reverse_reply(reply) is None,
        },
{
    assert(reverse_kinds() =~= seq![AbiKind::Text, AbiKind::Address, AbiKind::Address]);
}

/// A reply is refused with an error that the coder reports for it, read as a text and two
/// addresses.
pub proof fn law_refusals_come_from_the_coder(reply: Seq<u8>, error: ethers_core::abi::Error)
    ensures
        refused_with(reply, error) <==> exists|types: &[ParamType], data: &[u8]|
            type_kinds(types@) == seq![AbiKind::Text, AbiKind::Address, AbiKind::Address] && data@
                == reply && #[trigger] call_ensures(
                ethers_core::abi::decode,
                (types, data),
                Err::<Vec<Token>, _>(error),
            ),
{
    assert(reverse_kinds() =~= seq![AbiKind::Text, AbiKind::Address, AbiKind::Address]);
}

/// An error is shown by a text of its own, followed by the reason or the cause where there is
/// one.
pub proof fn law_errors_are_shown(
    reason: String,
    rpc: ProviderError,
    abi: ethers_core::abi::Error,
    cause: Seq<char>,
)
    ensures
        ReverseResolveError::MissingPrimaryName.text(cause)
            == "Address doesn't have a primary name"@,
        ReverseResolveError::AddressMismatch.text(cause)
            == "Address on name doesn't match with lookup address"@,
        ReverseResolveError::AddressLookupError(reason).text(cause)
            == "Failed to lookup address for reverse record: "@ + reason@,
        ReverseResolveError::RPCError(rpc).text(cause) == "RPC provider error: "@ + cause,
        ReverseResolveError::AbiDecodeError(abi).text(cause) == "ABI decode error: "@ + cause,
{
}

} // verus!
