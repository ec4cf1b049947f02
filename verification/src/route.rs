//! The paths on which the service answers, and how a path is taken apart
//! into the token it names.

use vstd::prelude::*;
use crate::error::ServiceError;
use crate::notation::{
    decimal_digits, hex_digits, is_decimal_digit, is_hex_digit, lemma_decimal_round_trip,
    lemma_hex_round_trip,
};
use crate::text::{chars_of, free_of, string_of};
use crate::token::{
    address_text, h160_debug, lemma_token_id_bound, strip_hex_prefix, token_ref_of,
    u256_to_string, TokenRef,
};

verus! {

/// The place of the contract's address in the pattern of a route.
pub const ADDRESS_PARAMETER: &'static str = "{nfteeAddress}";

/// The place of the token's number in the pattern of a route.
pub const TOKEN_ID_PARAMETER: &'static str = "{tokenId}";

/// The pattern of the route that serves metadata.
pub const METADATA_ROUTE: &'static str = "/metadata/{nfteeAddress}/{tokenId}";

/// A path of the image route with the given two segments: `/svg/`, the
/// first, a slash, the second. Both the route's pattern and the paths
/// that point at images are made this way, and in no other.
pub open spec fn svg_path_of(first: Seq<char>, second: Seq<char>) -> Seq<char> {
    seq!['/', 's', 'v', 'g', '/'] + first + seq!['/'] + second
}

/// The path of the image route with the given two segments.
pub fn svg_path_with(first: &str, second: &str) -> (path: String)
    ensures
        path@ == svg_path_of(first@, second@),
{
    let mut path = String::new();
    path.push('/');
    path.push('s');
    path.push('v');
    path.push('g');
    path.push('/');
    assert(path@ =~= seq!['/', 's', 'v', 'g', '/']);
    path.append(first);
    path.push('/');
    path.append(second);
    path
}

/// The pattern of the route that serves images: the path whose segments
/// are the two parameters.
pub fn svg_route_pattern() -> (pattern: String)
    ensures
        pattern@ == svg_path_of(ADDRESS_PARAMETER@, TOKEN_ID_PARAMETER@),
{
    svg_path_with(ADDRESS_PARAMETER, TOKEN_ID_PARAMETER)
}

/// The path under which the image of a token is served: the path of the
/// image route whose segments are the contract's address and the token's
/// number in decimal.
pub open spec fn svg_path_text(token: (Seq<u8>, nat)) -> Seq<char> {
    svg_path_of(address_text(token.0), decimal_digits(token.1))
}

/// The path under which the image of `token` is served.
pub fn svg_path(token: &TokenRef) -> (path: String)
    ensures
        path@ == svg_path_text(token@),
{
    let address = h160_debug(&token.contract_address);
    let number = u256_to_string(&token.token_id);
    svg_path_with(address.as_str(), number.as_str())
}

/// One or more characters, none of them a slash.
pub open spec fn is_segment(s: Seq<char>) -> bool {
    s.len() > 0 && free_of(s, '/')
}

/// The index of the first slash in `s`, or the length of `s` if it holds
/// none.
pub open spec fn first_slash(s: Seq<char>) -> int
    decreases s.len(),
{
    if s.len() == 0 || s[0] == '/' {
        0
    } else {
        1 + first_slash(s.skip(1))
    }
}

/// The two segments that the image route binds in `path`, if the path
/// fits the route: `/svg/`, a segment, a slash, a segment, where a
/// segment is one or more characters other than a slash.
pub open spec fn svg_segments(path: Seq<char>) -> Option<(Seq<char>, Seq<char>)> {
    let root = seq!['/', 's', 'v', 'g', '/'];
    if root.is_prefix_of(path) {
        let rest = path.skip(5);
        let cut = first_slash(rest);
        let first = rest.take(cut);
        let second = rest.skip(cut + 1);
        if cut < rest.len() && is_segment(first) && is_segment(second) {
            Some((first, second))
        } else {
            None
        }
    } else {
        None
    }
}

/// What the image route makes of `path`: nothing if the path does not
/// fit the route, else the token that the two segments name, or the
/// reason why they name none.
pub open spec fn svg_route(path: Seq<char>) -> Option<Result<(Seq<u8>, nat), ServiceError>> {
    match svg_segments(path) {
        Some((address, token_id)) => Some(token_ref_of(address, token_id)),
        None => None,
    }
}

/// The first slash is where the first slash is.
pub proof fn lemma_first_slash(s: Seq<char>, at: int)
    requires
        0 <= at <= s.len(),
        forall|j: int| 0 <= j < at ==> s[j] != '/',
        at < s.len() ==> s[at] == '/',
    ensures
        first_slash(s) == at,
    decreases at,
{
    if at > 0 {
        lemma_first_slash(s.skip(1), at - 1);
    }
}

/// Takes `path` apart as the image route does.
pub fn split_svg_path(path: &str) -> (r: Option<(String, String)>)
    ensures
        match r {
            Some(pair) => svg_segments(path@) == Some((pair.0@, pair.1@)),
            None => svg_segments(path@) is None,
        },
{
    let chars = chars_of(path);
    let n = chars.len();
    if !(n >= 5 && chars[0] == '/' && chars[1] == 's' && chars[2] == 'v' && chars[3] == 'g'
        && chars[4] == '/') {
        proof {
            let root = seq!['/', 's', 'v', 'g', '/'];
            if root.is_prefix_of(path@) {
                assert(path@.subrange(0, 5)[0] == root[0]);
                assert(path@.subrange(0, 5)[1] == root[1]);
                assert(path@.subrange(0, 5)[2] == root[2]);
                assert(path@.subrange(0, 5)[3] == root[3]);
                assert(path@.subrange(0, 5)[4] == root[4]);
            }
        }
        return None;
    }
    assert(seq!['/', 's', 'v', 'g', '/'] =~= path@.subrange(0, 5));
    let ghost rest = path@.skip(5);
    let mut cut: usize = 5;
    while cut < n && chars[cut] != '/'
        invariant
            5 <= cut <= n,
            n == chars.len(),
            forall|j: int| 5 <= j < cut ==> chars@[j] != '/',
        decreases n - cut,
    {
        cut += 1;
    }
    proof {
        lemma_first_slash(rest, cut - 5);
    }
    if cut == 5 || cut >= n || cut + 1 >= n {
        assert(rest.skip(cut - 5 + 1).len() == 0 || cut == 5 || cut >= n);
        return None;
    }
    let mut end: usize = cut + 1;
    while end < n && chars[end] != '/'
        invariant
            cut + 1 <= end <= n,
            n == chars.len(),
            forall|j: int| cut + 1 <= j < end ==> chars@[j] != '/',
        decreases n - end,
    {
        end += 1;
    }
    let ghost second = rest.skip(cut - 5 + 1);
    if end < n {
        assert(second[end - cut - 1] == '/');
        return None;
    }
    let first_part = string_of(vstd::slice::slice_subrange(chars.as_slice(), 5, cut));
    let second_part = string_of(vstd::slice::slice_subrange(chars.as_slice(), cut + 1, n));
    assert(first_part@ =~= rest.take(cut - 5));
    assert(second_part@ =~= second);
    Some((first_part, second_part))
}

/// What the image route makes of `path`. `None` means that the path does
/// not fit the route; an error means that it fits and a segment is
/// malformed.
pub fn resolve_svg_path(path: &str) -> (r: Option<Result<TokenRef, ServiceError>>)
    ensures
        match r {
            Some(Ok(token)) => svg_route(path@) == Some(
                Ok::<(Seq<u8>, nat), ServiceError>(token@),
            ),
            Some(Err(e)) => svg_route(path@) == Some(Err::<(Seq<u8>, nat), ServiceError>(e)),
            None => svg_route(path@) is None,
        },
{
    match split_svg_path(path) {
        None => None,
        Some(pair) => Some(TokenRef::parse(pair.0.as_str(), pair.1.as_str())),
    }
}

/// Taking apart undoes putting together: the image route finds in a path
/// the two segments that the path was made of.
pub proof fn lemma_svg_segments_of_path(first: Seq<char>, second: Seq<char>)
    requires
        is_segment(first),
        is_segment(second),
    ensures
        svg_segments(svg_path_of(first, second)) == Some((first, second)),
{
    let path = svg_path_of(first, second);
    let root = seq!['/', 's', 'v', 'g', '/'];
    assert(root =~= path.subrange(0, 5));
    let rest = path.skip(5);
    assert(rest =~= first + seq!['/'] + second);
    lemma_first_slash(rest, first.len() as int);
    assert(rest.take(first.len() as int) =~= first);
    assert(rest.skip(first.len() as int + 1) =~= second);
}

/// The path under which a token's image is served leads the image route
/// back to that very token.
pub proof fn lemma_svg_path_round_trip(token: TokenRef)
    ensures
        svg_route(svg_path_text(token@)) == Some(Ok::<(Seq<u8>, nat), ServiceError>(token@)),
{
    let bytes = token.contract_address@;
    let id = token.token_id@;
    let address = address_text(bytes);
    let number = decimal_digits(id);
    lemma_hex_round_trip(bytes);
    lemma_decimal_round_trip(id);
    lemma_token_id_bound(token.token_id);
    assert(bytes.len() == 20);
    assert forall|j: int| 0 <= j < address.len() implies address[j] != '/' by {
        if j >= 2 {
            assert(address[j] == hex_digits(bytes)[j - 2]);
            assert(is_hex_digit(hex_digits(bytes)[j - 2]));
        }
    }
    assert forall|j: int| 0 <= j < number.len() implies number[j] != '/' by {
        assert(is_decimal_digit(number[j]));
    }
    lemma_svg_segments_of_path(address, number);
    assert(strip_hex_prefix(address) =~= hex_digits(bytes));
}

} // verus!
