//! Mapping of gateway wallet-creation outcomes to wire responses.
//!
//! The gateway client reports failure as a boxed dynamic error. The mapping
//! surfaces the message of an underlying JSON-decode error when there is
//! one, and a generic rendering of the error otherwise. What those outside
//! renderings are on a given error is named, not restated: they are
//! functions of the error value alone.

use vstd::prelude::*;

verus! {

/// The gateway client's error type: anyhow's boxed error, opaque here.
#[verifier::external_type_specification]
#[verifier::external_body]
pub struct ExAnyhowError(anyhow::Error);

/// serde_json's error type, opaque here.
#[verifier::external_type_specification]
#[verifier::external_body]
pub struct ExJsonError(serde_json::Error);

/// Whether the boxed error's underlying type is serde_json's error.
pub uninterp spec fn is_decode_err(e: anyhow::Error) -> bool;

/// The Display rendering of the JSON-decode error underlying a boxed error
/// for which `is_decode_err` holds.
pub uninterp spec fn decode_msg_of(e: anyhow::Error) -> Seq<char>;

/// The Display rendering of a serde_json error.
pub uninterp spec fn json_msg_of(e: serde_json::Error) -> Seq<char>;

/// The Debug rendering of a boxed error.
pub uninterp spec fn render_of(e: anyhow::Error) -> Seq<char>;

/// Relies on anyhow::Error::downcast_ref::<serde_json::Error>: Some exactly
/// when the boxed error's underlying type is serde_json's error, and then a
/// reference to that underlying error, whose message is the decode message
/// of the boxed error.
#[verifier::external_body]
fn as_json_decode_error<'a>(err: &'a anyhow::Error) -> (r: Option<&'a serde_json::Error>)
    ensures
        r is Some <==> is_decode_err(*err),
        r matches Some(j) ==> json_msg_of(*j) == decode_msg_of(*err),
{
    err.downcast_ref::<serde_json::Error>()
}

/// Relies on serde_json::Error's Display rendering of a decode failure,
/// a function of the error value alone.
#[verifier::external_body]
fn json_error_message(err: &serde_json::Error) -> (r: String)
    ensures
        r@ == json_msg_of(*err),
{
    err.to_string()
}

/// Relies on anyhow::Error's Debug rendering for the generic fallback text,
/// a function of the error value alone.
#[verifier::external_body]
fn render_error(err: &anyhow::Error) -> (r: String)
    ensures
        r@ == render_of(*err),
{
    format!("{:?}", err)
}

/// Error detail surfaced in the wallet failure response body.
pub struct WalletErrorDetail {
    pub message: String,
}

/// Success body of the wallet endpoint.
pub struct WalletOkResponse<D> {
    pub message: &'static str,
    pub data: D,
}

/// Failure body of the wallet endpoint.
pub struct WalletFailureResponse {
    pub error: &'static str,
    pub data: WalletErrorDetail,
}

/// Wire response of the wallet endpoint.
pub enum WalletResponse<D> {
    Created(WalletOkResponse<D>),
    Failed(WalletFailureResponse),
}

impl<D> WalletResponse<D> {
    /// HTTP status carried by each variant.
    pub open spec fn spec_status_code(&self) -> int {
        match self {
            WalletResponse::Created(_) => 200,
            WalletResponse::Failed(_) => 400,
        }
    }

    pub fn status_code(&self) -> (r: u16)
        ensures
            r as int == self.spec_status_code(),
    {
        match self {
            WalletResponse::Created(_) => 200,
            WalletResponse::Failed(_) => 400,
        }
    }
}

/// The detail message owed for a failure: the decode error's own message
/// when the failure is a JSON-decode error, the generic rendering otherwise.
pub open spec fn failure_detail(e: anyhow::Error) -> Seq<char> {
    if is_decode_err(e) {
        decode_msg_of(e)
    } else {
        render_of(e)
    }
}

/// Pick the detail message for a failure: the decode error's own message
/// when the failure was a JSON-decode error, the generic rendering otherwise.
pub fn wallet_error_detail(decode_message: Option<String>, fallback: String) -> (r:
    WalletErrorDetail)
    ensures
        decode_message matches Some(m) ==> r.message@ == m@,
        decode_message is None ==> r.message@ == fallback@,
{
    match decode_message {
        Some(m) => WalletErrorDetail { message: m },
        None => WalletErrorDetail { message: fallback },
    }
}

/// Map a gateway wallet-creation failure to the failure body: a fixed error
/// label over the detail of the underlying cause.
pub fn map_wallet_failure(err: &anyhow::Error) -> (r: WalletFailureResponse)
    ensures
        r.error@ == "Wallet creation failed"@,
        r.data.message@ == failure_detail(*err),
{
    let decode_message = match as_json_decode_error(err) {
        Some(e) => Some(json_error_message(e)),
        None => None,
    };
    let fallback = render_error(err);
    let data = wallet_error_detail(decode_message, fallback);
    WalletFailureResponse { error: "Wallet creation failed", data }
}

/// Map the gateway wallet-creation outcome to the wire response.
pub fn map_wallet_outcome<D>(outcome: Result<D, anyhow::Error>) -> (r: WalletResponse<D>)
    ensures
        outcome matches Ok(w) ==> (r matches WalletResponse::Created(ok) && ok.message@
            == "Wallet created!"@ && ok.data == w),
        outcome matches Err(e) ==> (r matches WalletResponse::Failed(f) && f.error@
            == "Wallet creation failed"@ && f.data.message@ == failure_detail(e)),
        (r is Created <==> outcome is Ok),
{
    match outcome {
        Ok(w) => WalletResponse::Created(WalletOkResponse { message: "Wallet created!", data: w }),
        Err(e) => WalletResponse::Failed(map_wallet_failure(&e)),
    }
}

} // verus!
