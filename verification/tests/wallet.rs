use payments_core::wallet::{
    map_wallet_failure, map_wallet_outcome, wallet_error_detail, WalletResponse,
};

#[test]
fn wallet_creation_success_response() {
    let resp = map_wallet_outcome::<u32>(Ok(7));
    assert_eq!(resp.status_code(), 200);
    match resp {
        WalletResponse::Created(ok) => {
            assert_eq!(ok.message, "Wallet created!");
            assert_eq!(ok.data, 7);
        }
        WalletResponse::Failed(_) => panic!("a gateway success must map to Created"),
    }
}

#[test]
fn decode_error_detail_surfaces_its_message() {
    let json_err = serde_json::from_str::<serde_json::Value>("{").unwrap_err();
    let expected = json_err.to_string();
    let err = anyhow::Error::new(json_err);
    let resp = map_wallet_failure(&err);
    assert_eq!(resp.error, "Wallet creation failed");
    assert_eq!(resp.data.message, expected);
}

#[test]
fn non_decode_error_falls_back_to_generic_rendering() {
    let err = anyhow::Error::msg("gateway rejected the request");
    let resp = map_wallet_failure(&err);
    assert_eq!(resp.error, "Wallet creation failed");
    assert_eq!(resp.data.message, format!("{:?}", err));
}

#[test]
fn wallet_failure_outcome_maps_to_bad_request() {
    let err = anyhow::Error::msg("connection refused");
    let resp = map_wallet_outcome::<u32>(Err(err));
    assert_eq!(resp.status_code(), 400);
    match resp {
        WalletResponse::Failed(f) => assert_eq!(f.error, "Wallet creation failed"),
        WalletResponse::Created(_) => panic!("a gateway failure must map to Failed"),
    }
}

#[test]
fn detail_prefers_decode_message_over_fallback() {
    let d = wallet_error_detail(
        Some("unexpected end of input".to_string()),
        "fallback".to_string(),
    );
    assert_eq!(d.message, "unexpected end of input");
    let d = wallet_error_detail(None, "fallback".to_string());
    assert_eq!(d.message, "fallback");
}
