//! The contract interface: how requests come in and how values go out.

use crate::bytes::be_trimmed;
use crate::primitives::U256;
use vstd::prelude::*;
use vstd::utf8::encode_utf8;

verus! {

/// A row of zero bytes.
pub open spec fn zeros(n: nat) -> Seq<u8> {
    Seq::new(n, |i: int| 0u8)
}

/// A number below two to the power of 256 as a word of 32 bytes, most significant
/// first.
pub open spec fn abi_word(n: nat) -> Seq<u8> {
    zeros((32 - be_trimmed(n).len()) as nat) + be_trimmed(n)
}

/// Bytes as the single parameter of a call: where they begin, how many they are,
/// and the bytes with zeros behind them up to a multiple of 32.
pub open spec fn abi_bytes(data: Seq<u8>) -> Seq<u8> {
    abi_word(32) + abi_word(data.len()) + data + zeros(((32 - data.len() % 32) % 32) as nat)
}

/// Encodes bytes with `abi_encode_params` of `alloy_sol_types::SolValue`, as the
/// single parameter of a call.
#[verifier::external_body]
pub(crate) fn encode_bytes(data: Vec<u8>) -> (r: Vec<u8>)
    ensures
        r@ == abi_bytes(data@),
{
    alloy_sol_types::SolValue::abi_encode_params(&(alloy_primitives::Bytes::from(data),))
}

/// Encodes a text with `abi_encode_params` of `alloy_sol_types::SolValue`, as the
/// single parameter of a call: its bytes in UTF-8.
#[verifier::external_body]
pub(crate) fn encode_text(text: String) -> (r: Vec<u8>)
    ensures
        r@ == abi_bytes(encode_utf8(text@)),
{
    alloy_sol_types::SolValue::abi_encode_params(&(text,))
}

/// Encodes a number with `abi_encode_params` of `alloy_sol_types::SolValue`, as
/// the single parameter of a call: one word.
#[verifier::external_body]
pub(crate) fn encode_uint(n: U256) -> (r: Vec<u8>)
    ensures
        r@ == abi_word(n.value()),
{
    alloy_sol_types::SolValue::abi_encode_params(
        &(alloy_primitives::U256::from_limbs(n.limbs),),
    )
}

/// Encodes a truth value with `abi_encode_params` of `alloy_sol_types::SolValue`,
/// as the single parameter of a call: one word that is 1 or 0.
#[verifier::external_body]
pub(crate) fn encode_bool(b: bool) -> (r: Vec<u8>)
    ensures
        r@ == abi_word(
            if b {
                1
            } else {
                0
            },
        ),
{
    alloy_sol_types::SolValue::abi_encode_params(&(b,))
}

/// What a contract asks an outside service for.
#[derive(Debug)]
pub struct ApiRequest {
    pub url: String,
    pub method: String,
    pub headers: Vec<u8>,
    pub body: Vec<u8>,
    pub response_path: String,
    pub response_type: u8,
}

impl View for ApiRequest {
    type V = (Seq<char>, Seq<char>, Seq<u8>, Seq<u8>, Seq<char>, u8);

    open spec fn view(&self) -> (Seq<char>, Seq<char>, Seq<u8>, Seq<u8>, Seq<char>, u8) {
        (
            self.url@,
            self.method@,
            self.headers@,
            self.body@,
            self.response_path@,
            self.response_type,
        )
    }
}

/// Names the request that the bytes of a call hold: its URL, method, headers,
/// body, response path and response type.
pub uninterp spec fn request_in(data: Seq<u8>) -> Option<
    (Seq<char>, Seq<char>, Seq<u8>, Seq<u8>, Seq<char>, u8),
>;

/// Decodes the bytes of a call with `abi_decode` of `alloy_sol_types::SolType`,
/// as a tuple of two strings, two byte strings, a string and an 8-bit number;
/// `None` where they are no such tuple.
#[verifier::external_body]
pub(crate) fn decode_request(data: &[u8]) -> (r: Option<ApiRequest>)
    ensures
        match r {
            Some(request) => request_in(data@) == Some(request@),
            None => request_in(data@) is None,
        },
{
    let (url, method, headers, body, response_path, response_type) = <(
        alloy_sol_types::sol_data::String,
        alloy_sol_types::sol_data::String,
        alloy_sol_types::sol_data::Bytes,
        alloy_sol_types::sol_data::Bytes,
        alloy_sol_types::sol_data::String,
        alloy_sol_types::sol_data::Uint<8>,
    ) as alloy_sol_types::SolType>::abi_decode(data).ok()?;
    let (headers, body) = (headers.to_vec(), body.to_vec());
    Some(ApiRequest { url, method, headers, body, response_path, response_type })
}

} // verus!
