//! Forwarding records to the gateway and moving the watermark.
//!
//! The forwarder takes one record at a time from the delivery queue and posts
//! its payload to the gateway. Only a response in the 2xx range counts as
//! delivered, and only then is the record's timestamp stored as the new
//! watermark. A record whose forward failed is not sent again: it is lost
//! beyond the gateway, and the watermark stays where it was.

use crate::common::log::{bytes_seq, Log, Timestamp};
use bytes::Bytes;
use vstd::prelude::*;
use vstd::string::*;

verus! {

/// Why a record did not reach the gateway.
#[derive(Debug)]
pub enum ForwardError {
    /// No response was received.
    TransportFailure { reason: String },
    /// The gateway answered with a status outside the 2xx range.
    RejectedByGateway { status: u16 },
}

/// A [`ForwardError`] as a mathematical value.
pub enum ForwardErrorView {
    TransportFailure { reason: Seq<char> },
    RejectedByGateway { status: u16 },
}

impl View for ForwardError {
    type V = ForwardErrorView;

    open spec fn view(&self) -> ForwardErrorView {
        match self {
            ForwardError::TransportFailure { reason } => ForwardErrorView::TransportFailure {
                reason: reason@,
            },
            ForwardError::RejectedByGateway { status } => ForwardErrorView::RejectedByGateway {
                status: *status,
            },
        }
    }
}

/// The request that carries one record to the gateway: a POST to `url` with
/// `authorization` as the value of the `Authorization` header.
#[derive(Debug)]
pub struct ForwardRequest {
    pub url: String,
    pub authorization: String,
    pub body: Bytes,
}

/// A byte that may stand in a header value: no control character but the
/// tab.
pub open spec fn header_byte(byte: u8) -> bool {
    byte >= 32 && byte != 127 || byte == 9
}

/// Bytes that can be sent as a header value.
pub open spec fn header_value(bytes: Seq<u8>) -> bool {
    forall|i: int| 0 <= i < bytes.len() ==> header_byte(#[trigger] bytes[i])
}

/// Whether a status tells that the gateway took the record.
pub open spec fn accepted_status(status: u16) -> bool {
    200 <= status <= 299
}

/// What a response, or the lack of one, means for the record.
pub open spec fn forward_result(response: Result<u16, Seq<char>>) -> Result<(), ForwardErrorView> {
    match response {
        Ok(status) => if accepted_status(status) {
            Ok(())
        } else {
            Err(ForwardErrorView::RejectedByGateway { status })
        },
        Err(reason) => Err(ForwardErrorView::TransportFailure { reason }),
    }
}

/// The watermark after a series of forwards, each given by the record's
/// timestamp and whether the gateway took it.
pub open spec fn watermark_after(start: Timestamp, forwards: Seq<(Timestamp, bool)>) -> Timestamp
    decreases forwards.len(),
{
    if forwards.len() == 0 {
        start
    } else if forwards.last().1 {
        forwards.last().0
    } else {
        watermark_after(start, forwards.drop_last())
    }
}

/// Whether a token can be sent as the credential.
pub fn is_header_value(token: &str) -> (valid: bool)
    ensures
        valid == header_value(token.spec_bytes()),
{
    let bytes = token.as_bytes();
    let mut i: usize = 0;
    while i < bytes.len()
        invariant
            i <= bytes.len(),
            bytes@ == token.spec_bytes(),
            forall|k: int| 0 <= k < i ==> header_byte(#[trigger] bytes@[k]),
        decreases bytes.len() - i,
    {
        let byte: u8 = bytes[i];
        if !(byte >= 32 && byte != 127 || byte == 9) {
            assert(!header_byte(bytes@[i as int]));
            return false;
        }
        i += 1;
    }
    true
}

/// Turns what came back from the gateway into the fate of the record.
/// `Ok` holds the status of a response, `Err` the reason why there was none.
pub fn forward_outcome(response: Result<u16, String>) -> (outcome: Result<(), ForwardError>)
    ensures
        match outcome {
            Ok(()) => forward_result(
                match response {
                    Ok(status) => Ok(status),
                    Err(reason) => Err(reason@),
                },
            ) is Ok,
            Err(error) => forward_result(
                match response {
                    Ok(status) => Ok(status),
                    Err(reason) => Err(reason@),
                },
            ) == Err::<(), ForwardErrorView>(error@),
        },
{
    match response {
        Ok(status) => {
            if 200 <= status && status <= 299 {
                Ok(())
            } else {
                Err(ForwardError::RejectedByGateway { status })
            }
        },
        Err(reason) => Err(ForwardError::TransportFailure { reason }),
    }
}

/// The timestamp to store as the new watermark after one forward: the
/// record's if the gateway took the record, none otherwise.
pub fn checkpoint_after(time: Timestamp, outcome: &Result<(), ForwardError>) -> (store: Option<
    Timestamp,
>)
    ensures
        store == if outcome is Ok {
            Some(time)
        } else {
            None
        },
{
    match outcome {
        Ok(()) => Some(time),
        Err(_) => None,
    }
}

/// Where the gateway is and what to present to it.
#[derive(Debug)]
pub struct HttpApiService {
    api_url: String,
    auth_token: String,
}

impl HttpApiService {
    /// The base address of the gateway.
    pub closed spec fn url(&self) -> Seq<char> {
        self.api_url@
    }

    /// The credential.
    pub closed spec fn token(&self) -> Seq<char> {
        self.auth_token@
    }

    /// The credential can be sent as a header value.
    pub closed spec fn wf(&self) -> bool {
        header_value(vstd::utf8::encode_utf8(self.auth_token@))
    }

    /// The credential of a well-formed service is made of bytes that may
    /// stand in a header value.
    pub proof fn lemma_wf_token_is_header_value(&self)
        requires
            self.wf(),
        ensures
            header_value(vstd::utf8::encode_utf8(self.token())),
    {
    }

    /// A service for the gateway at `api_url` that presents `auth_token`.
    pub fn new(api_url: &str, auth_token: &str) -> (service: HttpApiService)
        requires
            header_value(auth_token.spec_bytes()),
        ensures
            service.wf(),
            service.url() == api_url@,
            service.token() == auth_token@,
    {
        HttpApiService {
            api_url: String::from_str(api_url),
            auth_token: String::from_str(auth_token),
        }
    }

    /// The request that forwards `log`: its payload, unchanged, posted to the
    /// gateway's `/log` with the credential.
    pub fn send_log(&self, log: &Log) -> (request: ForwardRequest)
        ensures
            request.url@ == self.url() + "/log"@,
            request.authorization@ == self.token(),
            bytes_seq(request.body) == log@.original_data,
    {
        let mut url = self.api_url.clone();
        url.append("/log");
        ForwardRequest {
            url,
            authorization: self.auth_token.clone(),
            body: log.original_data.clone(),
        }
    }
}

/// The watermark only ever holds the timestamp of a record that the gateway
/// took: after any series of forwards it is where it started or at such a
/// record, and a failed forward leaves it where it was.
pub proof fn lemma_watermark_follows_deliveries(start: Timestamp, forwards: Seq<(Timestamp, bool)>)
    ensures
        watermark_after(start, forwards) == start || exists|i: int|
            0 <= i < forwards.len() && (#[trigger] forwards[i]).1 && forwards[i].0
                == watermark_after(start, forwards),
        forall|time: Timestamp|
            watermark_after(start, forwards.push((time, false))) == watermark_after(
                start,
                forwards,
            ),
        forall|time: Timestamp|
            watermark_after(start, forwards.push((time, true))) == time,
    decreases forwards.len(),
{
    if forwards.len() > 0 && !forwards.last().1 {
        lemma_watermark_follows_deliveries(start, forwards.drop_last());
        let front = forwards.drop_last();
        if watermark_after(start, front) != start {
            let i = choose|i: int|
                0 <= i < front.len() && (#[trigger] front[i]).1 && front[i].0 == watermark_after(
                    start,
                    front,
                );
            assert(forwards[i] == front[i]);
        }
    }
    assert forall|time: Timestamp|
        watermark_after(start, forwards.push((time, false))) == watermark_after(
            start,
            forwards,
        ) by {
        assert(forwards.push((time, false)).drop_last() =~= forwards);
    }
}

} // verus!
