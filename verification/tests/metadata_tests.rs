use nftee::error::ServiceError;
use nftee::metadata::{api_path, build_metadata, ERC721Metadata};
use nftee::route::{
    resolve_svg_path, split_svg_path, svg_path, svg_path_with, svg_route_pattern, METADATA_ROUTE,
};
use nftee::token::{Address, TokenId, TokenRef};

const ADDRESS: &str = "0xabcdef0123456789abcdef0123456789abcdef01";

fn token(id: &str) -> TokenRef {
    TokenRef::parse(ADDRESS, id).expect("well-formed")
}

#[test]
fn api_path_is_absolute() {
    assert_eq!(api_path("/svg/x/1"), "http://127.0.0.1:8080/svg/x/1");
    assert_eq!(api_path("svg/x/1"), "http://127.0.0.1:8080/svg/x/1");
    assert_eq!(api_path(""), "http://127.0.0.1:8080/");
    assert_eq!(api_path("/"), "http://127.0.0.1:8080/");
}

#[test]
fn api_path_strips_one_slash_only() {
    assert_eq!(api_path("//a"), "http://127.0.0.1:8080//a");
}

#[test]
fn svg_path_names_the_token() {
    assert_eq!(svg_path(&token("7")), format!("/svg/{}/7", ADDRESS));
}

#[test]
fn svg_path_writes_the_address_in_lower_case() {
    let upper = TokenRef::parse("0xABCDEF0123456789ABCDEF0123456789ABCDEF01", "12").expect("ok");
    assert_eq!(svg_path(&upper), format!("/svg/{}/12", ADDRESS));
}

#[test]
fn metadata_of_token_seven() {
    let metadata = build_metadata(&token("7"));
    assert_eq!(
        metadata,
        ERC721Metadata {
            name: "7".to_string(),
            description: "NFT rendered from ASCII data.".to_string(),
            image: format!("http://127.0.0.1:8080/svg/{}/7", ADDRESS),
        }
    );
    assert!(metadata.image.ends_with(&format!("/svg/{}/7", ADDRESS)));
}

#[test]
fn metadata_name_is_decimal_without_leading_zeros() {
    assert_eq!(build_metadata(&token("0")).name, "0");
    assert_eq!(build_metadata(&token("000123")).name, "123");
    let max = "115792089237316195423570985008687907853269984665640564039457584007913129639935";
    assert_eq!(build_metadata(&token(max)).name, max);
    assert_eq!(
        build_metadata(&TokenRef {
            contract_address: Address { bytes: [0; 20] },
            token_id: TokenId { limbs: [0, 1, 0, 0] },
        })
        .name,
        "18446744073709551616"
    );
}

#[test]
fn image_path_leads_back_to_the_token() {
    for id in ["0", "7", "18446744073709551616", "99999999999999999999999999999999999999999"] {
        let named = token(id);
        let image = build_metadata(&named).image;
        let path = image.strip_prefix("http://127.0.0.1:8080").expect("on this service");
        assert_eq!(resolve_svg_path(path), Some(Ok(named)));
    }
    let largest = TokenRef {
        contract_address: Address { bytes: [0; 20] },
        token_id: TokenId { limbs: [u64::MAX; 4] },
    };
    assert_eq!(resolve_svg_path(&svg_path(&largest)), Some(Ok(largest)));
}

#[test]
fn split_svg_path_binds_two_segments() {
    assert_eq!(split_svg_path("/svg/a/b"), Some(("a".to_string(), "b".to_string())));
    assert_eq!(split_svg_path("/svg/0x12/34"), Some(("0x12".to_string(), "34".to_string())));
}

#[test]
fn split_svg_path_refuses_other_shapes() {
    for path in [
        "",
        "/",
        "/svg",
        "/svg/",
        "/svg/a",
        "/svg/a/",
        "/svg//b",
        "/svg/a/b/",
        "/svg/a/b/c",
        "svg/a/b",
        "/SVG/a/b",
        "/metadata/a/b",
        "//svg/a/b",
    ] {
        assert_eq!(split_svg_path(path), None, "{:?}", path);
    }
}

#[test]
fn resolve_svg_path_reports_malformed_segments() {
    assert_eq!(resolve_svg_path("/svg/nope/7"), Some(Err(ServiceError::InvalidAddress)));
    assert_eq!(
        resolve_svg_path(&format!("/svg/{}/abc", ADDRESS)),
        Some(Err(ServiceError::InvalidTokenId))
    );
    assert_eq!(resolve_svg_path("/other"), None);
}

#[test]
fn route_patterns_name_both_parameters() {
    assert_eq!(svg_route_pattern(), "/svg/{nfteeAddress}/{tokenId}");
    assert_eq!(METADATA_ROUTE, "/metadata/{nfteeAddress}/{tokenId}");
}

#[test]
fn pattern_and_paths_are_made_alike() {
    assert_eq!(svg_path_with("a", "b"), "/svg/a/b");
    assert_eq!(svg_path_with("{nfteeAddress}", "{tokenId}"), svg_route_pattern());
    assert_eq!(svg_path_with(ADDRESS, "7"), svg_path(&token("7")));
    assert_eq!(
        split_svg_path(&svg_route_pattern()),
        Some(("{nfteeAddress}".to_string(), "{tokenId}".to_string()))
    );
}

#[test]
fn split_undoes_svg_path_with() {
    for (first, second) in [("a", "b"), ("0x12", "34"), ("x y", "%2f"), ("\u{e9}", "7")] {
        assert_eq!(
            split_svg_path(&svg_path_with(first, second)),
            Some((first.to_string(), second.to_string()))
        );
    }
}
