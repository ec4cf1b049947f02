//! What the two endpoints answer, once the node has replied.
//!
//! A request is served in three steps. [`token_uri_request`] reads the
//! two texts in the request's path and says which call to make; on
//! malformed input it fails, and there is then no call to make. The
//! caller makes that one read-only call against the node. It hands the
//! node's reply, or the transport's account of its failure, to
//! [`nft_image`] or [`nft_data`], which say what to answer.

use vstd::prelude::*;
use vstd::utf8::{decode_utf8, valid_utf8};
use crate::calldata::{token_uri_call, token_uri_calldata, CallRequest};
use crate::error::ServiceError;
use crate::metadata::{api_origin, build_metadata, ERC721Metadata, DESCRIPTION};
use crate::notation::decimal_digits;
use crate::route::svg_path_text;
use crate::sanitize::{sanitize, sanitized_lines};
use crate::svg::{render_svg, svg_document};
use crate::token::{token_ref_of, TokenRef};

verus! {

/// The media type of the image endpoint's answer.
pub const SVG_CONTENT_TYPE: &'static str = "image/svg+xml";

/// The media type of the metadata endpoint's answer.
pub const METADATA_CONTENT_TYPE: &'static str = "application/json";

/// The first step of both endpoints: the token that the request names,
/// and the call that asks its contract for its URI. A malformed address
/// or token number is reported, and no call comes of it.
pub fn token_uri_request(address: &str, token_id: &str) -> (r: Result<
    (TokenRef, CallRequest),
    ServiceError,
>)
    ensures
        match r {
            Ok((token, call)) => token_ref_of(address@, token_id@) == Ok::<
                (Seq<u8>, nat),
                ServiceError,
            >(token@) && call.to == token.contract_address && call.data@ == token_uri_calldata(
                token.token_id@,
            ),
            Err(e) => token_ref_of(address@, token_id@) == Err::<(Seq<u8>, nat), ServiceError>(e),
        },
{
    match TokenRef::parse(address, token_id) {
        Ok(token) => {
            let call = token_uri_call(&token);
            Ok((token, call))
        },
        Err(e) => Err(e),
    }
}

/// The body of the image endpoint's answer: the SVG rendering of the text
/// that the contract returned. A failed call and undecodable bytes are
/// reported, each as what it is.
pub fn nft_image(reply: Result<Vec<u8>, String>) -> (r: Result<String, ServiceError>)
    ensures
        match reply {
            Ok(raw) => if valid_utf8(raw@) {
                r matches Ok(document) && document@ == svg_document(
                    sanitized_lines(decode_utf8(raw@)),
                )
            } else {
                r == Err::<String, ServiceError>(ServiceError::InvalidEncoding)
            },
            Err(cause) => r == Err::<String, ServiceError>(ServiceError::RpcFailure(cause)),
        },
{
    match reply {
        Ok(raw) => match sanitize(raw.as_slice()) {
            Ok(text) => Ok(render_svg(&text)),
            Err(e) => Err(e),
        },
        Err(cause) => Err(ServiceError::RpcFailure(cause)),
    }
}

/// The metadata endpoint's answer: the metadata of `token`, given only
/// when the contract answered the call with text. It fails as the image
/// endpoint does.
pub fn nft_data(token: &TokenRef, reply: Result<Vec<u8>, String>) -> (r: Result<
    ERC721Metadata,
    ServiceError,
>)
    ensures
        match reply {
            Ok(raw) => if valid_utf8(raw@) {
                r matches Ok(metadata) && metadata.name@ == decimal_digits(token.token_id@)
                    && metadata.description@ == DESCRIPTION@ && metadata.image@ == api_origin()
                    + svg_path_text(token@)
            } else {
                r == Err::<ERC721Metadata, ServiceError>(ServiceError::InvalidEncoding)
            },
            Err(cause) => r == Err::<ERC721Metadata, ServiceError>(
                ServiceError::RpcFailure(cause),
            ),
        },
{
    match reply {
        Ok(raw) => match std::str::from_utf8(raw.as_slice()) {
            Ok(_) => Ok(build_metadata(token)),
            Err(_) => Err(ServiceError::InvalidEncoding),
        },
        Err(cause) => Err(ServiceError::RpcFailure(cause)),
    }
}

} // verus!
