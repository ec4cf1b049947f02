use nftee::config::Config;
use nftee::error::ServiceError;
use nftee::service::{nft_data, nft_image, token_uri_request};
use nftee::token::TokenRef;

const ADDRESS: &str = "0xabcdef0123456789abcdef0123456789abcdef01";

#[test]
fn image_of_a_reply() {
    let document = nft_image(Ok(b"Hello\\nWorld".to_vec())).expect("rendered");
    assert!(document.contains("<tspan x=\"0\" dy=\"1.2em\">Hello</tspan>"));
    assert!(document.contains("<tspan x=\"0\" dy=\"1.2em\">World</tspan>"));
    assert!(document.ends_with("</text>\n</svg>"));
}

#[test]
fn image_of_a_failed_call() {
    assert_eq!(
        nft_image(Err("connection refused".to_string())),
        Err(ServiceError::RpcFailure("connection refused".to_string()))
    );
}

#[test]
fn image_of_undecodable_bytes() {
    assert_eq!(nft_image(Ok(vec![0xff])), Err(ServiceError::InvalidEncoding));
}

#[test]
fn metadata_after_a_reply() {
    let token = TokenRef::parse(ADDRESS, "7").expect("well-formed");
    let metadata = nft_data(&token, Ok(b"anything".to_vec())).expect("built");
    assert_eq!(metadata.name, "7");
    assert_eq!(metadata.description, "NFT rendered from ASCII data.");
    assert_eq!(metadata.image, format!("http://127.0.0.1:8080/svg/{}/7", ADDRESS));
}

#[test]
fn metadata_fails_as_the_image_does() {
    let token = TokenRef::parse(ADDRESS, "7").expect("well-formed");
    assert_eq!(
        nft_data(&token, Err("reverted".to_string())),
        Err(ServiceError::RpcFailure("reverted".to_string()))
    );
    assert_eq!(nft_data(&token, Ok(vec![0xc0, 0x80])), Err(ServiceError::InvalidEncoding));
}

#[test]
fn malformed_token_id_is_a_bad_request_on_both_routes() {
    // Both routes start here; without a token there is no call to make.
    let error = token_uri_request(ADDRESS, "abc").expect_err("malformed");
    assert_eq!(error, ServiceError::InvalidTokenId);
    assert_eq!(error.status_code(), 400);
}

#[test]
fn token_id_of_257_bits_is_a_bad_request() {
    let address = "0x0000000000000000000000000000000000000001";
    let two_to_256 =
        "115792089237316195423570985008687907853269984665640564039457584007913129639936";
    let error = token_uri_request(address, two_to_256).expect_err("too large");
    assert_eq!(error, ServiceError::InvalidTokenId);
    assert_eq!(error.status_code(), 400);
    let largest = "115792089237316195423570985008687907853269984665640564039457584007913129639935";
    let (token, call) = token_uri_request(address, largest).expect("fits");
    assert_eq!(token.token_id.limbs, [u64::MAX; 4]);
    assert_eq!(&call.data[4..], &[0xffu8; 32]);
}

#[test]
fn empty_token_id_is_a_bad_request() {
    let error = token_uri_request(ADDRESS, "").expect_err("no number");
    assert_eq!(error, ServiceError::InvalidTokenId);
    assert_eq!(error.status_code(), 400);
}

#[test]
fn malformed_address_is_a_bad_request() {
    let error = token_uri_request("0x12", "7").expect_err("malformed");
    assert_eq!(error, ServiceError::InvalidAddress);
    assert_eq!(error.status_code(), 400);
}

#[test]
fn well_formed_request_names_its_call() {
    let (token, call) = token_uri_request(ADDRESS, "7").expect("well-formed");
    assert_eq!(token, TokenRef::parse(ADDRESS, "7").expect("well-formed"));
    assert_eq!(call.to, token.contract_address);
    let mut data = vec![0xc8, 0x7b, 0x56, 0xdd];
    data.extend_from_slice(&[0u8; 31]);
    data.push(7);
    assert_eq!(call.data, data);
}

#[test]
fn every_error_has_its_status() {
    assert_eq!(ServiceError::InvalidTokenId.status_code(), 400);
    assert_eq!(ServiceError::InvalidAddress.status_code(), 400);
    assert_eq!(ServiceError::RpcFailure("down".to_string()).status_code(), 417);
    assert_eq!(ServiceError::InvalidEncoding.status_code(), 500);
}

#[test]
fn config_defaults_to_a_local_node() {
    assert_eq!(Config::default().l1_rpc_http, "http://localhost:8545");
    assert_eq!(Config::from_env(None).l1_rpc_http, "http://localhost:8545");
}

#[test]
fn config_takes_the_endpoint_from_the_environment() {
    let config = Config::from_env(Some("https://node.example:8545".to_string()));
    assert_eq!(config.l1_rpc_http, "https://node.example:8545");
}
