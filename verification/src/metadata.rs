//! The metadata document of a token, and the address under which its
//! image is served.

use vstd::prelude::*;
use crate::error::ServiceError;
use crate::notation::decimal_digits;
use crate::route::{lemma_svg_path_round_trip, svg_path, svg_path_text, svg_route};
use crate::text::{chars_of, push_decimal};
use crate::token::{u256_to_string, TokenRef};

verus! {

/// The scheme under which the service is reached.
pub const TRANSPORT: &'static str = "http";

/// The host on which the service listens.
pub const HOST: &'static str = "127.0.0.1";

/// The port on which the service listens.
pub const PORT: u16 = 8080;

/// What every metadata document says of its token.
pub const DESCRIPTION: &'static str = "NFT rendered from ASCII data.";

/// Scheme, host and port of the service, as the start of a URL.
pub open spec fn api_origin() -> Seq<char> {
    TRANSPORT@ + seq![':', '/', '/'] + HOST@ + seq![':'] + decimal_digits(PORT as nat)
}

/// `path` without the slash it starts with, if it starts with one.
pub open spec fn without_leading_slash(path: Seq<char>) -> Seq<char> {
    if path.len() > 0 && path[0] == '/' {
        path.skip(1)
    } else {
        path
    }
}

/// The absolute URL of `path` on the service.
pub open spec fn api_url(path: Seq<char>) -> Seq<char> {
    api_origin() + seq!['/'] + without_leading_slash(path)
}

/// The absolute URL of `path` on the service. One leading slash of `path`
/// is optional: with it or without it the URL is the same.
pub fn api_path(path: &str) -> (url: String)
    ensures
        url@ == api_url(path@),
{
    let chars = chars_of(path);
    let start: usize = if chars.len() > 0 && chars[0] == '/' {
        1
    } else {
        0
    };
    let mut url = String::from_str(TRANSPORT);
    url.push(':');
    url.push('/');
    url.push('/');
    url.append(HOST);
    url.push(':');
    push_decimal(&mut url, PORT as u64);
    url.push('/');
    let ghost head = url@;
    assert(head =~= api_origin() + seq!['/']);
    let mut i: usize = start;
    while i < chars.len()
        invariant
            start <= i <= chars.len(),
            url@ == head + chars@.subrange(start as int, i as int),
        decreases chars.len() - i,
    {
        url.push(chars[i]);
        i += 1;
    }
    assert(chars@.subrange(start as int, chars.len() as int) =~= without_leading_slash(path@));
    url
}

/// The metadata of a token, in the shape that marketplaces read.
#[derive(Debug, Clone, PartialEq, Eq)]
pub struct ERC721Metadata {
    pub name: String,
    pub description: String,
    pub image: String,
}

/// The metadata of `token`: its number as the name, the fixed
/// description, and the absolute URL of its image.
pub fn build_metadata(token: &TokenRef) -> (metadata: ERC721Metadata)
    ensures
        metadata.name@ == decimal_digits(token.token_id@),
        metadata.description@ == DESCRIPTION@,
        metadata.image@ == api_url(svg_path_text(token@)),
        metadata.image@ == api_origin() + svg_path_text(token@),
{
    let path = svg_path(token);
    let image = api_path(path.as_str());
    proof {
        lemma_api_url_of_rooted_path(path@);
    }
    ERC721Metadata {
        name: u256_to_string(&token.token_id),
        description: String::from_str(DESCRIPTION),
        image,
    }
}

/// The URL of a path that starts with a slash is the origin followed by
/// the path.
pub proof fn lemma_api_url_of_rooted_path(path: Seq<char>)
    requires
        path.len() > 0,
        path[0] == '/',
    ensures
        api_url(path) == api_origin() + path,
{
    assert(seq!['/'] + path.skip(1) =~= path);
    assert(api_origin() + seq!['/'] + path.skip(1) =~= api_origin() + (seq!['/'] + path.skip(1)));
}

/// What follows the origin in a URL of the service.
pub open spec fn path_of_api_url(url: Seq<char>) -> Seq<char> {
    url.skip(api_origin().len() as int)
}

/// The image that a token's metadata points to is served for that very
/// token: the path of the image's URL leads the image route back to the
/// token that the metadata was built for.
pub proof fn lemma_image_names_its_token(token: TokenRef)
    ensures
        svg_route(path_of_api_url(api_url(svg_path_text(token@)))) == Some(
            Ok::<(Seq<u8>, nat), ServiceError>(token@),
        ),
{
    let path = svg_path_text(token@);
    lemma_api_url_of_rooted_path(path);
    assert((api_origin() + path).skip(api_origin().len() as int) =~= path);
    lemma_svg_path_round_trip(token);
}

} // verus!
