use payments_core::checkout::{
    checkout_gateway_failure, checkout_rejection, checkout_success, prepare_checkout,
};
use payments_core::model::{CheckoutInfo, CheckoutMethod, Currency, InitCheckoutResponse};

fn info(amount: &str) -> CheckoutInfo {
    CheckoutInfo {
        first_name: "A".to_string(),
        last_name: "B".to_string(),
        email: "a@b.com".to_string(),
        amount: amount.to_string(),
    }
}

#[test]
fn builds_card_request_in_configured_currency() {
    let req = prepare_checkout(&info("10.00")).unwrap();
    assert_eq!(req.first_name.as_deref(), Some("A"));
    assert_eq!(req.last_name.as_deref(), Some("B"));
    assert_eq!(req.email.as_deref(), Some("a@b.com"));
    assert_eq!(req.method, Some(CheckoutMethod::CardPayment));
    assert_eq!(req.currency, Currency::Kes);
    assert_eq!(req.amount_cents, 1000);
}

#[test]
fn rejects_malformed_amount_with_fixed_message() {
    let err = prepare_checkout(&info("not-a-number")).unwrap_err();
    assert_eq!(err.message, "Invalid checkout amount format");
    let resp: InitCheckoutResponse<()> = checkout_rejection(err);
    assert_eq!(resp.status_code(), 400);
    match resp {
        InitCheckoutResponse::BadRequest(b) => {
            assert_eq!(b.message, "Invalid checkout amount format")
        }
        InitCheckoutResponse::Success(_) => panic!("rejection must not succeed"),
    }
}

#[test]
fn gateway_failure_maps_to_clean_bad_request() {
    let resp: InitCheckoutResponse<()> = checkout_gateway_failure();
    assert_eq!(resp.status_code(), 400);
    match resp {
        InitCheckoutResponse::BadRequest(b) => {
            assert_eq!(b.message, "Checkout initiation failed")
        }
        InitCheckoutResponse::Success(_) => panic!("a gateway failure must not succeed"),
    }
}

#[test]
fn checkout_scenario_returns_success_response() {
    let req = prepare_checkout(&info("5.5")).unwrap();
    assert_eq!(req.amount_cents, 550);
    let resp = checkout_success("gateway-stub-result".to_string());
    assert_eq!(resp.status_code(), 200);
    match resp {
        InitCheckoutResponse::Success(ok) => {
            assert_eq!(ok.message, "Checkout initiated successfully");
            assert_eq!(ok.data, "gateway-stub-result");
        }
        InitCheckoutResponse::BadRequest(_) => panic!("stub checkout must succeed"),
    }
}
