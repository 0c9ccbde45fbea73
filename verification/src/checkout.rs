//! Validation of checkout forms and assembly of gateway checkout requests.

use vstd::prelude::*;

use crate::amount::{amount_cents, clamp_i64, is_valid_amount, normalize_amount};
use crate::model::{
    CheckoutInfo, CheckoutMethod, CheckoutRequest, Currency, InitCheckoutBadRequestResponse,
    InitCheckoutOkResponse, InitCheckoutResponse,
};

verus! {

/// What the builder owes for a form and a cent count: the form's fields
/// carried over, card payment, the configured currency, and that amount.
pub open spec fn built_request(req: CheckoutRequest, info: CheckoutInfo, cents: i64) -> bool {
    &&& req.first_name matches Some(n) && n@ == info.first_name@
    &&& req.last_name matches Some(n) && n@ == info.last_name@
    &&& req.email matches Some(n) && n@ == info.email@
    &&& req.method == Some(CheckoutMethod::CardPayment)
    &&& req.currency == Currency::Kes
    &&& req.amount_cents == cents
}

/// Assemble the gateway request from a form and a normalized amount. Pure;
/// cannot fail: the amount was validated upstream.
pub fn build_checkout_request(info: &CheckoutInfo, cents: i64) -> (r: CheckoutRequest)
    ensures
        built_request(r, *info, cents),
{
    CheckoutRequest {
        first_name: Some(info.first_name.clone()),
        last_name: Some(info.last_name.clone()),
        email: Some(info.email.clone()),
        method: Some(CheckoutMethod::CardPayment),
        amount_cents: cents,
        currency: Currency::Kes,
    }
}

/// Validate the form's amount and assemble the gateway request. Succeeds
/// exactly on a well-formed decimal amount; any other string is rejected
/// with the fixed bad-request message, and no request is built for it.
pub fn prepare_checkout(info: &CheckoutInfo) -> (r: Result<
    CheckoutRequest,
    InitCheckoutBadRequestResponse,
>)
    ensures
        r is Ok <==> is_valid_amount(info.amount@),
        r matches Ok(req) ==> built_request(req, *info, req.amount_cents)
            && req.amount_cents as int == clamp_i64(amount_cents(info.amount@)),
        r matches Err(e) ==> e.message@ == "Invalid checkout amount format"@,
{
    match normalize_amount(info.amount.as_str()) {
        Ok(cents) => Ok(build_checkout_request(info, cents)),
        Err(e) => Err(InitCheckoutBadRequestResponse { message: e.message }),
    }
}

/// Wrap a gateway checkout result in the success wire response.
pub fn checkout_success<D>(data: D) -> (r: InitCheckoutResponse<D>)
    ensures
        r matches InitCheckoutResponse::Success(ok) && ok.message@
            == "Checkout initiated successfully"@ && ok.data == data,
        r.spec_status_code() == 200,
{
    InitCheckoutResponse::Success(
        InitCheckoutOkResponse { message: "Checkout initiated successfully", data },
    )
}

/// Wrap a rejected form in the bad-request wire response.
pub fn checkout_rejection<D>(err: InitCheckoutBadRequestResponse) -> (r: InitCheckoutResponse<D>)
    ensures
        r matches InitCheckoutResponse::BadRequest(b) && b == err,
        r.spec_status_code() == 400,
{
    InitCheckoutResponse::BadRequest(err)
}

/// The wire response for a checkout whose gateway call failed: a clean
/// bad request with a fixed label, instead of a process-level fault.
pub fn checkout_gateway_failure<D>() -> (r: InitCheckoutResponse<D>)
    ensures
        r matches InitCheckoutResponse::BadRequest(b) && b.message@
            == "Checkout initiation failed"@,
        r.spec_status_code() == 400,
{
    InitCheckoutResponse::BadRequest(
        InitCheckoutBadRequestResponse { message: "Checkout initiation failed" },
    )
}

} // verus!
