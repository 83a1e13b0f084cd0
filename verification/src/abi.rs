//! Contract call data: the values that the resolvers encode and decode, and the two
//! functions of the ABI coder that they call.
use ethers_core::abi::{ParamType, Token};
use ethers_core::types::{H160, U256};
use vstd::prelude::*;

verus! {

/// The 160-bit hash of the `ethers` family. Its one field is public, and is read here.
#[verifier::external_type_specification]
pub struct ExH160(H160);

/// The 256-bit integer of the `ethers` family. Its limbs are public, and are read here.
#[verifier::external_type_specification]
pub struct ExU256(U256);

/// A value of the ABI coder. Its variants are public, and are told apart here.
#[verifier::external_type_specification]
pub struct ExToken(Token);

/// A type of the ABI coder. Its variants are public, and are built here.
#[verifier::external_type_specification]
pub struct ExParamType(ParamType);

/// What the ABI coder reports when it cannot decode.
#[verifier::external_type_specification]
#[verifier::external_body]
pub struct ExAbiError(ethers_core::abi::Error);

/// The number that the limbs of a 256-bit integer stand for, least significant limb first.
pub open spec fn u256_value(n: U256) -> nat {
    (n.0@[0] + n.0@[1] * 0x1_0000_0000_0000_0000 + n.0@[2]
        * 0x1_0000_0000_0000_0000_0000_0000_0000_0000 + n.0@[3]
        * 0x1_0000_0000_0000_0000_0000_0000_0000_0000_0000_0000_0000_0000) as nat
}

/// Widens a number: it goes into the least significant limb.
pub(crate) fn u256_from_u64(n: u64) -> (wide: U256)
    ensures
        wide.0@ == seq![n, 0, 0, 0],
        u256_value(wide) == n,
{
    let wide = U256([n, 0, 0, 0]);
    assert(wide.0@ =~= seq![n, 0, 0, 0]);
    wide
}

/// A value in call data.
pub enum AbiValue {
    Address(Seq<u8>),
    Bytes(Seq<u8>),
    Uint(nat),
    Text(Seq<char>),
    Array(Seq<AbiValue>),
    Tuple(Seq<AbiValue>),
    /// A value of a sort that no resolver writes or reads.
    Other,
}

/// The sort of a value in call data.
pub enum AbiKind {
    Address,
    Bytes,
    Text,
    Array(Box<AbiKind>),
    Tuple(Seq<AbiKind>),
    /// A sort that no resolver reads.
    Other,
}

/// The value that a token stands for.
pub open spec fn token_value(token: Token) -> AbiValue
    decreases token,
{
    match token {
        Token::Address(address) => AbiValue::Address(address.0@),
        Token::Bytes(bytes) => AbiValue::Bytes(bytes@),
        Token::Uint(n) => AbiValue::Uint(u256_value(n)),
        Token::String(text) => AbiValue::Text(text@),
        Token::Array(tokens) => AbiValue::Array(token_values(tokens@)),
        Token::Tuple(tokens) => AbiValue::Tuple(token_values(tokens@)),
        _ => AbiValue::Other,
    }
}

/// The values that tokens stand for, in their order.
pub open spec fn token_values(tokens: Seq<Token>) -> Seq<AbiValue>
    decreases tokens,
{
    Seq::new(
        tokens.len(),
        |i: int|
            if 0 <= i < tokens.len() {
                token_value(tokens[i])
            } else {
                AbiValue::Other
            },
    )
}

/// The sort of value that a type of the coder describes.
pub open spec fn type_kind(param: ParamType) -> AbiKind
    decreases param,
{
    match param {
        ParamType::Address => AbiKind::Address,
        ParamType::Bytes => AbiKind::Bytes,
        ParamType::String => AbiKind::Text,
        ParamType::Array(item) => AbiKind::Array(Box::new(type_kind(*item))),
        ParamType::Tuple(params) => AbiKind::Tuple(type_kinds(params@)),
        _ => AbiKind::Other,
    }
}

/// The sorts of value that types of the coder describe, in their order.
pub open spec fn type_kinds(params: Seq<ParamType>) -> Seq<AbiKind>
    decreases params,
{
    Seq::new(
        params.len(),
        |i: int|
            if 0 <= i < params.len() {
                type_kind(params[i])
            } else {
                AbiKind::Other
            },
    )
}

/// Whether `value` is of the sort `kind`, down to its innermost parts.
pub open spec fn has_kind(value: AbiValue, kind: AbiKind) -> bool
    decreases kind,
{
    match kind {
        AbiKind::Address => value matches AbiValue::Address(address) && address.len() == 20,
        AbiKind::Bytes => value is Bytes,
        AbiKind::Text => value is Text,
        AbiKind::Array(item) => value matches AbiValue::Array(values) && forall|i: int|
            0 <= i < values.len() ==> has_kind(#[trigger] values[i], *item),
        AbiKind::Tuple(kinds) => value matches AbiValue::Tuple(values) && have_kinds(values, kinds),
        AbiKind::Other => false,
    }
}

/// Whether `values` are as many as `kinds`, and each is of the sort at its place.
pub open spec fn have_kinds(values: Seq<AbiValue>, kinds: Seq<AbiKind>) -> bool
    decreases kinds,
{
    &&& values.len() == kinds.len()
    &&& forall|i: int|
        0 <= i < values.len() ==> 0 <= i < kinds.len() && has_kind(#[trigger] values[i], kinds[i])
}

/// Whether every part of `kind` takes up room in call data: no tuple in it is empty, and
/// no part of it is of a sort that the resolvers do not read.
pub open spec fn readable(kind: AbiKind) -> bool
    decreases kind,
{
    match kind {
        AbiKind::Address | AbiKind::Bytes | AbiKind::Text => true,
        AbiKind::Array(item) => readable(*item),
        AbiKind::Tuple(kinds) => kinds.len() > 0 && forall|i: int|
            0 <= i < kinds.len() ==> readable(#[trigger] kinds[i]),
        AbiKind::Other => false,
    }
}

/// Whether `value` is of a sort that the resolvers write.
pub open spec fn writable(value: AbiValue) -> bool
    decreases value,
{
    match value {
        AbiValue::Bytes(_) | AbiValue::Uint(_) => true,
        AbiValue::Array(values) => forall|i: int|
            0 <= i < values.len() ==> writable(#[trigger] values[i]),
        _ => false,
    }
}

/// The bytes that `len` bytes take up once they are padded to whole words of 32.
pub open spec fn padded_len(len: nat) -> nat {
    (len + 31) / 32 * 32
}

/// The bytes that a value takes up in call data: one word in place, and what it has
/// behind the words.
pub open spec fn value_len(value: AbiValue) -> nat
    decreases value, 0nat,
{
    match value {
        AbiValue::Bytes(bytes) => 64 + padded_len(bytes.len()),
        AbiValue::Array(values) => 64 + encoded_len(values),
        _ => 32,
    }
}

/// The bytes that values take up in call data.
pub open spec fn encoded_len(values: Seq<AbiValue>) -> nat
    decreases values, values.len(),
{
    if values.len() == 0 {
        0
    } else {
        encoded_len(values.drop_last()) + value_len(values.last())
    }
}

/// Whether the coder can write `len` bytes: it counts them in `u32`, and reserves a word of 32
/// bytes for each, which together may not pass the largest allocation.
pub open spec fn is_writable_len(len: nat) -> bool {
    len <= u32::MAX && 32 * len <= isize::MAX
}

/// What `ethers_core::abi::encode` writes for values.
pub uninterp spec fn abi_encoding(values: Seq<AbiValue>) -> Seq<u8>;

/// What `ethers_core::abi::decode` reads from `data` as values of the sorts `kinds`:
/// nothing where it reports an error.
pub uninterp spec fn abi_decoding(kinds: Seq<AbiKind>, data: Seq<u8>) -> Option<Seq<AbiValue>>;

/// `ethers_core::abi::encode`. Its output is a function of the values alone, and is as long
/// as their words and what stands behind the words. It has to be short enough for the
/// coder to count its bytes and to reserve its room.
pub assume_specification[ ethers_core::abi::encode ](tokens: &[Token]) -> (encoded: Vec<u8>)
    requires
        forall|i: int| 0 <= i < tokens@.len() ==> writable(#[trigger] token_values(tokens@)[i]),
        is_writable_len(encoded_len(token_values(tokens@))),
    ensures
        encoded@ == abi_encoding(token_values(tokens@)),
        encoded@.len() == encoded_len(token_values(tokens@)),
;

/// `ethers_core::abi::decode`. Whether it succeeds, and what it reads, is a function of the
/// types and the data alone. What it reads is of the sorts asked for, and each of these
/// needs a word of its own. Which error it reports is not stated. It adds to offsets
/// of 32 bits in `usize`, which has to be wider than that.
pub assume_specification[ ethers_core::abi::decode ](types: &[ParamType], data: &[u8]) -> (decoded:
    Result<Vec<Token>, ethers_core::abi::Error>)
    requires
        usize::BITS == 64,
        forall|i: int| 0 <= i < types@.len() ==> readable(#[trigger] type_kinds(types@)[i]),
    ensures
        decoded is Err <==> abi_decoding(type_kinds(types@), data@) is None,
        decoded matches Ok(tokens) ==> abi_decoding(type_kinds(types@), data@) == Some(
            token_values(tokens@),
        ),
        decoded matches Ok(tokens) ==> have_kinds(token_values(tokens@), type_kinds(types@)),
        data@.len() < 32 * types@.len() ==> decoded is Err,
;

/// A token stands for exactly what it holds: its bytes, characters and limbs in their order,
/// and its parts one by one.
pub proof fn law_tokens_stand_for_what_they_hold(
    address: H160,
    bytes: Vec<u8>,
    n: U256,
    text: String,
    tokens: Vec<Token>,
)
    ensures
        token_value(Token::Address(address)) == AbiValue::Address(address.0@),
        token_value(Token::Bytes(bytes)) == AbiValue::Bytes(bytes@),
        token_value(Token::Uint(n)) == AbiValue::Uint(u256_value(n)),
        token_value(Token::String(text)) == AbiValue::Text(text@),
        token_value(Token::Array(tokens)) matches AbiValue::Array(values) && values.len()
            == tokens@.len() && forall|i: int|
            0 <= i < values.len() ==> #[trigger] values[i] == token_value(tokens@[i]),
        token_value(Token::Tuple(tokens)) matches AbiValue::Tuple(values) && values.len()
            == tokens@.len() && forall|i: int|
            0 <= i < values.len() ==> #[trigger] values[i] == token_value(tokens@[i]),
        token_values(tokens@).len() == tokens@.len(),
        forall|i: int|
            0 <= i < tokens@.len() ==> #[trigger] token_values(tokens@)[i] == token_value(
                tokens@[i],
            ),
{
    reveal_with_fuel(token_value, 2);
    reveal_with_fuel(token_values, 2);
}

/// A token and the value that it stands for are of one sort, and a token of a sort that no
/// resolver writes or reads stands for no value of the other sorts.
pub proof fn law_tokens_keep_their_sort(token: Token)
    ensures
        token_value(token) is Address <==> token is Address,
        token_value(token) is Bytes <==> token is Bytes,
        token_value(token) is Uint <==> token is Uint,
        token_value(token) is Text <==> token is String,
        token_value(token) is Array <==> token is Array,
        token_value(token) is Tuple <==> token is Tuple,
{
}

/// A type of the coder describes the sort of its own name, and its parts one by one.
pub proof fn law_types_describe_their_sort(item: ParamType, params: Vec<ParamType>)
    ensures
        type_kind(ParamType::Address) == AbiKind::Address,
        type_kind(ParamType::Bytes) == AbiKind::Bytes,
        type_kind(ParamType::String) == AbiKind::Text,
        type_kind(ParamType::Array(Box::new(item))) == AbiKind::Array(Box::new(type_kind(item))),
        type_kind(ParamType::Tuple(params)) matches AbiKind::Tuple(kinds) && kinds.len()
            == params@.len() && forall|i: int|
            0 <= i < kinds.len() ==> #[trigger] kinds[i] == type_kind(params@[i]),
        type_kinds(params@).len() == params@.len(),
        forall|i: int|
            0 <= i < params@.len() ==> #[trigger] type_kinds(params@)[i] == type_kind(params@[i]),
{
    reveal_with_fuel(type_kind, 2);
    reveal_with_fuel(type_kinds, 2);
}

/// The limbs of a wide number are its digits to the base 2^64, least significant first.
pub proof fn law_limbs_are_digits(n: U256)
    ensures
        u256_value(n) == n.0@[0] + 0x1_0000_0000_0000_0000 * (n.0@[1] + 0x1_0000_0000_0000_0000 * (
        n.0@[2] + 0x1_0000_0000_0000_0000 * n.0@[3])),
{
}

/// Padding adds as few bytes as reach a whole number of words.
pub proof fn law_padding_is_least(len: nat)
    ensures
        padded_len(len) % 32 == 0,
        len <= padded_len(len) < len + 32,
{
}

/// Lengths add up: values take up what each of them does, a word in place, and behind it a
/// count and the padded bytes, or a count and the parts.
pub proof fn law_lengths_add_up(
    values: Seq<AbiValue>,
    value: AbiValue,
    bytes: Seq<u8>,
    n: nat,
)
    ensures
        encoded_len(Seq::empty()) == 0,
        encoded_len(values.push(value)) == encoded_len(values) + value_len(value),
        value_len(AbiValue::Uint(n)) == 32,
        value_len(AbiValue::Bytes(bytes)) % 32 == 0,
        64 + bytes.len() <= value_len(AbiValue::Bytes(bytes)) < 96 + bytes.len(),
        value_len(AbiValue::Array(values)) == 64 + encoded_len(values),
{
    reveal_with_fuel(encoded_len, 2);
    reveal_with_fuel(value_len, 2);
    assert(values.push(value).drop_last() =~= values);
}

/// What can be written is below 4 GiB, with a word of 32 bytes per byte within the largest
/// allocation, and all of that can be.
pub proof fn law_writable_lengths(len: nat)
    ensures
        is_writable_len(len) <==> len < 0x1_0000_0000 && 32 * len <= isize::MAX,
{
}

} // verus!
