//! Failures of an execution, as a plugin reports them in the midst of a stream.

use vstd::prelude::*;

use crate::event::observation::{ProviderResponseHeader, ProviderResponseObservation};
use crate::event::ClientVisibleUpstreamResponse;
use crate::fault::{
    bare_error, highest_state, send_watermark, stream_protocol_error, ProviderError,
    ProviderErrorKind, UpstreamSendState,
};

verus! {

/// The most bytes of a response that is shown to the client.
pub const MAX_BODY_BYTES: usize = 65536;

/// The most bytes of a media type.
pub const MAX_CONTENT_TYPE_BYTES: usize = 256;

/// What kind of failure a plugin reports.
#[derive(Clone, Copy, Debug, PartialEq, Eq, Structural)]
pub enum ExecutionFailureKind {
    InvalidRequest,
    Unsupported,
    Authentication,
    PermissionDenied,
    RateLimited,
    QuotaExhausted,
    Unavailable,
    Protocol,
    Timeout,
    Cancelled,
}

/// A response of the upstream service that a plugin wants shown to the client.
pub struct FailureResponse {
    pub status: u16,
    pub content_type: Option<Vec<u8>>,
    pub body: Vec<u8>,
}

/// A failure, as a plugin reports it.
pub struct ExecutionFailure {
    pub kind: ExecutionFailureKind,
    pub send_state: UpstreamSendState,
    pub code: Option<String>,
    pub retry_after_ms: Option<u64>,
    pub response: Option<FailureResponse>,
}

/// The kind of failure that the engine is told of.
pub open spec fn told_kind(kind: ExecutionFailureKind) -> ProviderErrorKind {
    match kind {
        ExecutionFailureKind::InvalidRequest => ProviderErrorKind::InvalidRequest,
        ExecutionFailureKind::Unsupported => ProviderErrorKind::Unsupported,
        ExecutionFailureKind::Authentication => ProviderErrorKind::Unauthorized,
        ExecutionFailureKind::PermissionDenied => ProviderErrorKind::PermissionDenied,
        ExecutionFailureKind::RateLimited => ProviderErrorKind::RateLimited,
        ExecutionFailureKind::QuotaExhausted => ProviderErrorKind::QuotaExhausted,
        ExecutionFailureKind::Unavailable => ProviderErrorKind::Unavailable,
        ExecutionFailureKind::Protocol => ProviderErrorKind::Protocol,
        ExecutionFailureKind::Timeout => ProviderErrorKind::Timeout,
        ExecutionFailureKind::Cancelled => ProviderErrorKind::Cancelled,
    }
}

/// A media type is printable ASCII.
pub open spec fn is_media_type(value: Seq<u8>) -> bool {
    value.len() <= MAX_CONTENT_TYPE_BYTES && forall|i: int|
        0 <= i < value.len() ==> 32 <= #[trigger] value[i] < 127
}

/// A response that may be shown to the client: an error of the upstream service, not too long.
pub open spec fn is_shown_response(response: FailureResponse) -> bool {
    &&& 400 <= response.status <= 599
    &&& response.body@.len() <= MAX_BODY_BYTES
    &&& response.content_type matches Some(value) ==> is_media_type(value@)
}

/// A failure that a plugin may report.
pub open spec fn is_failure(failure: ExecutionFailure) -> bool {
    failure.response matches Some(response) ==> is_shown_response(response)
}

/// Two lists of the same headers.
pub open spec fn same_headers(
    a: Seq<ProviderResponseHeader>,
    b: Seq<ProviderResponseHeader>,
) -> bool {
    a.len() == b.len() && forall|i: int|
        0 <= i < a.len() ==> (#[trigger] a[i]).name == b[i].name && a[i].value@ == b[i].value@
}

/// The response that is shown to the client, with the headers that were observed.
pub open spec fn is_client_response(
    shown: ClientVisibleUpstreamResponse,
    response: FailureResponse,
    observation: Option<&ProviderResponseObservation>,
) -> bool {
    &&& shown.status == response.status
    &&& shown.content_type == response.content_type
    &&& shown.body == response.body
    &&& match observation {
        Some(observation) => same_headers(shown.headers@, observation.client_headers@),
        None => shown.headers@.len() == 0,
    }
}

/// What the engine is told of a failure.
pub open spec fn is_told_failure(
    error: ProviderError,
    failure: ExecutionFailure,
    observation: Option<&ProviderResponseObservation>,
    observed: UpstreamSendState,
) -> bool {
    &&& error.kind == told_kind(failure.kind)
    &&& error.send_state == highest_state(observed, failure.send_state)
    &&& error.upstream_code == failure.code
    &&& error.retry_after_ms == failure.retry_after_ms
    &&& error.status == match observation {
        Some(observation) => observation.status,
        None => None,
    }
    &&& error.upstream_request_id == match observation {
        Some(observation) => observation.request_id,
        None => None,
    }
    &&& error.continuation_failure is None
    &&& error.continuation_recovery is None
    &&& error.client_event is None
    &&& match failure.response {
        Some(response) => error.client_response matches Some(shown) && is_client_response(
            shown,
            response,
            observation,
        ),
        None => error.client_response is None,
    }
}

fn media_type(value: &Vec<u8>) -> (r: bool)
    ensures
        r == is_media_type(value@),
{
    if value.len() > MAX_CONTENT_TYPE_BYTES {
        return false;
    }
    for i in 0..value.len()
        invariant
            forall|j: int| 0 <= j < i ==> 32 <= #[trigger] value@[j] < 127,
    {
        if value[i] < 32 || value[i] >= 127 {
            return false;
        }
    }
    true
}

fn copy_bytes(bytes: &Vec<u8>) -> (copy: Vec<u8>)
    ensures
        copy@ == bytes@,
{
    let mut copy: Vec<u8> = Vec::new();
    for i in 0..bytes.len()
        invariant
            copy@ == bytes@.take(i as int),
    {
        copy.push(bytes[i]);
        assert(copy@ =~= bytes@.take(i + 1));
    }
    assert(bytes@.take(bytes@.len() as int) =~= bytes@);
    copy
}

fn copy_headers(headers: &Vec<ProviderResponseHeader>) -> (copy: Vec<ProviderResponseHeader>)
    ensures
        same_headers(copy@, headers@),
{
    let mut copy: Vec<ProviderResponseHeader> = Vec::new();
    for i in 0..headers.len()
        invariant
            copy@.len() == i,
            forall|j: int|
                0 <= j < i ==> (#[trigger] copy@[j]).name == headers@[j].name && copy@[j].value@
                    == headers@[j].value@,
    {
        copy.push(
            ProviderResponseHeader {
                name: headers[i].name.clone(),
                value: copy_bytes(&headers[i].value),
            },
        );
    }
    copy
}

pub fn decode(
    failure: ExecutionFailure,
    observation: Option<&ProviderResponseObservation>,
    observed: UpstreamSendState,
) -> (result: Result<ProviderError, ProviderError>)
    ensures
        match result {
            Ok(error) => is_failure(failure) && is_told_failure(
                error,
                failure,
                observation,
                observed,
            ),
            Err(error) => !is_failure(failure) && error == bare_error(
                ProviderErrorKind::Protocol,
                UpstreamSendState::Ambiguous,
            ),
        },
{
    let kind = match failure.kind {
        ExecutionFailureKind::InvalidRequest => ProviderErrorKind::InvalidRequest,
        ExecutionFailureKind::Unsupported => ProviderErrorKind::Unsupported,
        ExecutionFailureKind::Authentication => ProviderErrorKind::Unauthorized,
        ExecutionFailureKind::PermissionDenied => ProviderErrorKind::PermissionDenied,
        ExecutionFailureKind::RateLimited => ProviderErrorKind::RateLimited,
        ExecutionFailureKind::QuotaExhausted => ProviderErrorKind::QuotaExhausted,
        ExecutionFailureKind::Unavailable => ProviderErrorKind::Unavailable,
        ExecutionFailureKind::Protocol => ProviderErrorKind::Protocol,
        ExecutionFailureKind::Timeout => ProviderErrorKind::Timeout,
        ExecutionFailureKind::Cancelled => ProviderErrorKind::Cancelled,
    };
    let mut error = ProviderError::new(kind, send_watermark(observed, failure.send_state));
    error.upstream_code = failure.code;
    error.retry_after_ms = failure.retry_after_ms;
    match observation {
        Some(observation) => {
            error.status = observation.status;
            error.upstream_request_id = match &observation.request_id {
                Some(id) => Some(id.clone()),
                None => None,
            };
        },
        None => {},
    }
    match failure.response {
        Some(response) => {
            let media = match &response.content_type {
                Some(value) => media_type(value),
                None => true,
            };
            if response.status < 400 || response.status > 599 || response.body.len()
                > MAX_BODY_BYTES || !media {
                return Err(stream_protocol_error());
            }
            let headers = match observation {
                Some(observation) => copy_headers(&observation.client_headers),
                None => Vec::new(),
            };
            error.client_response = Some(
                ClientVisibleUpstreamResponse {
                    status: response.status,
                    content_type: response.content_type,
                    body: response.body,
                    headers,
                },
            );
        },
        None => {},
    }
    Ok(error)
}

/// The engine is told of each kind of failure under a kind of its own.
pub proof fn kinds_are_told_apart(a: ExecutionFailureKind, b: ExecutionFailureKind)
    ensures
        told_kind(a) == told_kind(b) <==> a == b,
        told_kind(a) is InvalidRequest <==> a is InvalidRequest,
        told_kind(a) is Unsupported <==> a is Unsupported,
        told_kind(a) is Unauthorized <==> a is Authentication,
        told_kind(a) is PermissionDenied <==> a is PermissionDenied,
        told_kind(a) is RateLimited <==> a is RateLimited,
        told_kind(a) is QuotaExhausted <==> a is QuotaExhausted,
        told_kind(a) is Unavailable <==> a is Unavailable,
        told_kind(a) is Protocol <==> a is Protocol,
        told_kind(a) is Timeout <==> a is Timeout,
        told_kind(a) is Cancelled <==> a is Cancelled,
{
}

/// The engine is told of a failure with the code and the waiting time that the plugin reported, with
/// the status and the request that were observed, and that at least as much was sent as the host saw
/// and as the plugin reported.
pub proof fn failure_is_told_as_reported(
    error: ProviderError,
    failure: ExecutionFailure,
    observation: Option<&ProviderResponseObservation>,
    observed: UpstreamSendState,
)
    requires
        is_told_failure(error, failure, observation, observed),
    ensures
        error.upstream_code == failure.code,
        error.retry_after_ms == failure.retry_after_ms,
        observation is Some ==> error.status == observation->0.status && error.upstream_request_id
            == observation->0.request_id,
        observation is None ==> error.status is None && error.upstream_request_id is None,
        observed is Sent || failure.send_state is Sent <==> error.send_state is Sent,
        observed is NotSent && failure.send_state is NotSent <==> error.send_state is NotSent,
        error.continuation_failure is None && error.continuation_recovery is None,
        error.client_event is None,
{
}

/// A client is shown a response exactly if the plugin gave one: the same status, media type and body,
/// with the headers that were observed, in their order.
pub proof fn response_is_shown_as_given(
    error: ProviderError,
    failure: ExecutionFailure,
    observation: Option<&ProviderResponseObservation>,
    observed: UpstreamSendState,
)
    requires
        is_told_failure(error, failure, observation, observed),
    ensures
        error.client_response is Some <==> failure.response is Some,
        failure.response is Some ==> {
            let shown = error.client_response->0;
            let given = failure.response->0;
            &&& shown.status == given.status
            &&& shown.content_type == given.content_type
            &&& shown.body == given.body
            &&& observation is None ==> shown.headers@.len() == 0
            &&& observation is Some ==> shown.headers@.len() == observation->0.client_headers@.len()
                && forall|i: int|
                0 <= i < shown.headers@.len() ==> (#[trigger] shown.headers@[i]).name
                    == observation->0.client_headers@[i].name && shown.headers@[i].value@
                    == observation->0.client_headers@[i].value@
        },
{
}

/// A response may be shown exactly if its status is one of an error, its body has at most 65536 bytes,
/// and its media type has at most 256 and every one of them can be printed.
pub proof fn shown_responses(failure: ExecutionFailure)
    ensures
        is_failure(failure) <==> (failure.response is Some ==> {
            let given = failure.response->0;
            &&& given.status >= 400 && given.status < 600
            &&& given.body@.len() <= 65536
            &&& given.content_type is Some ==> given.content_type->0@.len() <= 256 && forall|i: int|
                0 <= i < given.content_type->0@.len() ==> (#[trigger] given.content_type->0@[i])
                    >= 0x20 && given.content_type->0@[i] <= 0x7e
        }),
{
}

} // verus!
