//! The read-only call that asks a contract for the URI of a token.

use vstd::prelude::*;
use crate::error::ServiceError;
use crate::notation::decimal_value;
use crate::text::push_all;
use crate::token::{
    abi_encode_uint, big_endian_word, is_u256_numeral, Address, TokenId, TokenRef,
};

verus! {

/// The selector of `tokenURI(uint256)`.
pub const TOKEN_URI_SELECTOR: [u8; 4] = [0xc8, 0x7b, 0x56, 0xdd];

/// The call data that asks for the URI of token number `id`: the
/// selector, then the number as one big-endian word.
pub open spec fn token_uri_calldata(id: nat) -> Seq<u8> {
    TOKEN_URI_SELECTOR@ + big_endian_word(id)
}

/// A call to make against the node, without a transaction: the contract
/// to call and the data to call it with.
#[derive(Debug, Clone, PartialEq, Eq)]
pub struct CallRequest {
    pub to: Address,
    pub data: Vec<u8>,
}

/// The call data for the URI of token number `id`.
pub fn encode_token_uri(id: &TokenId) -> (data: Vec<u8>)
    ensures
        data@ == token_uri_calldata(id@),
        data@.len() == 4 + 32,
{
    let mut data: Vec<u8> = Vec::new();
    push_all(&mut data, TOKEN_URI_SELECTOR.as_slice());
    let word = abi_encode_uint(id);
    push_all(&mut data, word.as_slice());
    data
}

/// The call data for the URI of the token whose number is written in
/// decimal in `token_id`.
pub fn encode_token_uri_str(token_id: &str) -> (r: Result<Vec<u8>, ServiceError>)
    ensures
        is_u256_numeral(token_id@) ==> (r matches Ok(data) && data@ == token_uri_calldata(
            decimal_value(token_id@),
        ) && data@.len() == 4 + 32),
        !is_u256_numeral(token_id@) ==> r == Err::<Vec<u8>, ServiceError>(
            ServiceError::InvalidTokenId,
        ),
{
    match TokenId::from_dec_str(token_id) {
        Ok(id) => Ok(encode_token_uri(&id)),
        Err(e) => Err(e),
    }
}

/// The call that asks the token's contract for the token's URI.
pub fn token_uri_call(token: &TokenRef) -> (call: CallRequest)
    ensures
        call.to == token.contract_address,
        call.data@ == token_uri_calldata(token.token_id@),
{
    CallRequest { to: token.contract_address, data: encode_token_uri(&token.token_id) }
}

} // verus!
