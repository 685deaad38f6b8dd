//! The gateway's single operation: take in one log record.
//!
//! A request is checked in a fixed order. First the credential: a request
//! without one, or with one that differs from the configured secret in any
//! byte, is turned away before its body is looked at. Then the body: it must
//! decode to a record. What passes both is handed back for publishing, as the
//! bytes that came in. The gateway publishes once and reports what the broker
//! said; it does not retry.

use crate::common::log::{decoded_payload, Log, LogView, ParseLogErr, ParseLogErrView};
use crate::gateway::app_config::AppConfig;
use vstd::prelude::*;
use vstd::string::*;
use vstd::utf8::encode_utf8;

verus! {

/// Why a credential was refused.
#[derive(Debug, Clone, Copy, PartialEq, Eq, Structural)]
pub enum AuthFailure {
    /// The request has no `Authorization` header.
    MissingHeader,
    /// The header's value is not the configured secret.
    WrongToken,
}

/// Why a request was not taken in.
#[derive(Debug)]
pub enum GatewayError {
    /// The credential is missing or wrong.
    Unauthorized(AuthFailure),
    /// The body is not a log record.
    BadRequest(ParseLogErr),
    /// The broker did not take the record.
    InternalError,
}

/// A [`GatewayError`] as a mathematical value.
pub enum GatewayErrorView {
    Unauthorized(AuthFailure),
    BadRequest(ParseLogErrView),
    InternalError,
}

impl View for GatewayError {
    type V = GatewayErrorView;

    open spec fn view(&self) -> GatewayErrorView {
        match self {
            GatewayError::Unauthorized(failure) => GatewayErrorView::Unauthorized(*failure),
            GatewayError::BadRequest(error) => GatewayErrorView::BadRequest(error@),
            GatewayError::InternalError => GatewayErrorView::InternalError,
        }
    }
}

/// The record was published.
#[derive(Debug, Clone, Copy, PartialEq, Eq, Structural)]
pub struct Ack;

/// What the credential check says of a presented header value.
pub open spec fn credential_check(authorization: Option<Seq<u8>>, api_token: Seq<char>) -> Result<
    (),
    AuthFailure,
> {
    match authorization {
        None => Err(AuthFailure::MissingHeader),
        Some(presented) => if presented == encode_utf8(api_token) {
            Ok(())
        } else {
            Err(AuthFailure::WrongToken)
        },
    }
}

/// What the gateway makes of a request before anything is published: the
/// record to publish, or the reason to turn the request away.
pub open spec fn admission(
    authorization: Option<Seq<u8>>,
    body: Seq<u8>,
    api_token: Seq<char>,
) -> Result<LogView, GatewayErrorView> {
    match credential_check(authorization, api_token) {
        Err(failure) => Err(GatewayErrorView::Unauthorized(failure)),
        Ok(()) => match decoded_payload(body) {
            Ok(log) => Ok(log),
            Err(error) => Err(GatewayErrorView::BadRequest(error)),
        },
    }
}

/// The status a response carries.
pub open spec fn response_status(outcome: Result<Ack, GatewayErrorView>) -> u16 {
    match outcome {
        Ok(_) => 200,
        Err(GatewayErrorView::Unauthorized(_)) => 401,
        Err(GatewayErrorView::BadRequest(_)) => 400,
        Err(GatewayErrorView::InternalError) => 500,
    }
}

/// An option of a byte slice as a mathematical value.
pub open spec fn presented_view(authorization: Option<&[u8]>) -> Option<Seq<u8>> {
    match authorization {
        Some(presented) => Some(presented@),
        None => None,
    }
}

/// The outcome of a request as a mathematical value.
pub open spec fn response_view(outcome: Result<Ack, GatewayError>) -> Result<Ack, GatewayErrorView> {
    match outcome {
        Ok(ack) => Ok(ack),
        Err(error) => Err(error@),
    }
}

/// The outcome of an admission as a mathematical value.
pub open spec fn admission_view(outcome: Result<Log, GatewayError>) -> Result<
    LogView,
    GatewayErrorView,
> {
    match outcome {
        Ok(log) => Ok(log@),
        Err(error) => Err(error@),
    }
}

fn same_bytes(left: &[u8], right: &[u8]) -> (same: bool)
    ensures
        same == (left@ == right@),
{
    if left.len() != right.len() {
        return false;
    }
    let mut i: usize = 0;
    while i < left.len()
        invariant
            i <= left.len(),
            left.len() == right.len(),
            forall|k: int| 0 <= k < i ==> left@[k] == right@[k],
        decreases left.len() - i,
    {
        if left[i] != right[i] {
            return false;
        }
        i += 1;
    }
    assert(left@ =~= right@);
    true
}

/// Checks the credential of a request: the value of its `Authorization`
/// header must be the configured secret, byte for byte.
pub fn check_auth_header(authorization: Option<&[u8]>, app_config: &AppConfig) -> (checked: Result<
    (),
    GatewayError,
>)
    ensures
        match credential_check(presented_view(authorization), app_config.api_token@) {
            Ok(()) => checked is Ok,
            Err(failure) => checked matches Err(error) && error@
                == GatewayErrorView::Unauthorized(failure),
        },
{
    match authorization {
        None => Err(GatewayError::Unauthorized(AuthFailure::MissingHeader)),
        Some(presented) => {
            if same_bytes(presented, app_config.api_token.as_str().as_bytes()) {
                Ok(())
            } else {
                Err(GatewayError::Unauthorized(AuthFailure::WrongToken))
            }
        },
    }
}

/// Takes in one request up to the point of publishing. `Ok` holds the record
/// whose payload, the request body unchanged, is to be published to the
/// configured topic. On `Err` nothing is to be published.
pub fn add_log(authorization: Option<&[u8]>, req_body: &[u8], app_config: &AppConfig) -> (outcome:
    Result<Log, GatewayError>)
    ensures
        admission_view(outcome) == admission(
            presented_view(authorization),
            req_body@,
            app_config.api_token@,
        ),
        outcome matches Ok(log) ==> log.wf(),
{
    match check_auth_header(authorization, app_config) {
        Err(error) => Err(error),
        Ok(()) => match Log::try_from(req_body) {
            Ok(log) => Ok(log),
            Err(error) => Err(GatewayError::BadRequest(error)),
        },
    }
}

/// Turns what the broker said of the one publish into the answer to the
/// request.
pub fn publish_response(published: Result<(), String>) -> (outcome: Result<Ack, GatewayError>)
    ensures
        published is Ok ==> outcome is Ok,
        published is Err ==> outcome matches Err(GatewayError::InternalError),
{
    match published {
        Ok(()) => Ok(Ack),
        Err(_) => Err(GatewayError::InternalError),
    }
}

/// The status code that tells the sender what became of its request.
pub fn status_code(outcome: &Result<Ack, GatewayError>) -> (status: u16)
    ensures
        status == response_status(response_view(*outcome)),
{
    match outcome {
        Ok(_) => 200,
        Err(GatewayError::Unauthorized(_)) => 401,
        Err(GatewayError::BadRequest(_)) => 400,
        Err(GatewayError::InternalError) => 500,
    }
}

/// A request whose credential is missing or wrong is turned away as
/// unauthorized whatever its body holds, so nothing of it is published.
pub proof fn lemma_unauthorized_is_never_published(
    authorization: Option<Seq<u8>>,
    body: Seq<u8>,
    api_token: Seq<char>,
)
    requires
        authorization != Some(encode_utf8(api_token)),
    ensures
        admission(authorization, body, api_token) matches Err(GatewayErrorView::Unauthorized(_)),
{
}

/// A request is taken in exactly if it presents the secret and its body
/// decodes, and what is published is then the body, byte for byte.
pub proof fn lemma_admitted_payload_is_the_body(
    authorization: Option<Seq<u8>>,
    body: Seq<u8>,
    api_token: Seq<char>,
)
    ensures
        admission(authorization, body, api_token) is Ok <==> (authorization == Some(
            encode_utf8(api_token),
        ) && decoded_payload(body) is Ok),
        admission(authorization, body, api_token) matches Ok(log) ==> log.original_data == body,
{
}

/// A record that a collector decoded passes the gateway unchanged when its
/// payload is sent with the secret: the gateway finds the same record in it.
pub proof fn lemma_forwarded_record_is_admitted(log: Log, api_token: Seq<char>)
    requires
        log.wf(),
    ensures
        admission(Some(encode_utf8(api_token)), log@.original_data, api_token) == Ok::<
            LogView,
            GatewayErrorView,
        >(log@),
{
}

} // verus!
