//! Data carried between the HTTP surface and the payment gateway.

use vstd::prelude::*;

verus! {

/// A user record accepted from the client application.
#[derive(Clone, Debug, PartialEq, Eq)]
pub struct User {
    pub first_name: String,
    pub last_name: String,
    pub username: String,
    pub email: String,
}

/// The JSON body of a checkout-initiation request. The amount arrives as
/// decimal text and is validated before anything is sent to the gateway.
#[derive(Clone, Debug, PartialEq, Eq)]
pub struct CheckoutInfo {
    pub first_name: String,
    pub last_name: String,
    pub email: String,
    pub amount: String,
}

/// Payment methods the gateway accepts.
#[derive(Clone, Copy, Debug, PartialEq, Eq, Structural)]
pub enum CheckoutMethod {
    Mpesa,
    CardPayment,
    Bitcoin,
    Bank,
    CoopB2b,
}

/// Currencies the gateway accepts.
#[derive(Clone, Copy, Debug, PartialEq, Eq, Structural)]
pub enum Currency {
    Kes,
    Ghs,
    Ngn,
    Ugx,
    Tzs,
    Xaf,
    Xof,
    Usd,
    Eur,
    Gbp,
}

/// A checkout request bound for the gateway. The amount is an exact
/// fixed-point value held in minor units (cents, scale two).
#[derive(Clone, Debug)]
pub struct CheckoutRequest {
    pub first_name: Option<String>,
    pub last_name: Option<String>,
    pub email: Option<String>,
    pub method: Option<CheckoutMethod>,
    pub amount_cents: i64,
    pub currency: Currency,
}

/// Success body of the checkout endpoint.
pub struct InitCheckoutOkResponse<D> {
    pub message: &'static str,
    pub data: D,
}

/// Bad-request body of the checkout endpoint.
#[derive(Clone, Copy, Debug, PartialEq, Eq)]
pub struct InitCheckoutBadRequestResponse {
    pub message: &'static str,
}

/// Wire response of the checkout endpoint: success with the gateway's
/// checkout result, or a bad request with a fixed message.
pub enum InitCheckoutResponse<D> {
    Success(InitCheckoutOkResponse<D>),
    BadRequest(InitCheckoutBadRequestResponse),
}

impl<D> InitCheckoutResponse<D> {
    /// HTTP status carried by each variant.
    pub open spec fn spec_status_code(&self) -> int {
        match self {
            InitCheckoutResponse::Success(_) => 200,
            InitCheckoutResponse::BadRequest(_) => 400,
        }
    }

    pub fn status_code(&self) -> (r: u16)
        ensures
            r as int == self.spec_status_code(),
    {
        match self {
            InitCheckoutResponse::Success(_) => 200,
            InitCheckoutResponse::BadRequest(_) => 400,
        }
    }
}

} // verus!
