//! The failures that the runtime reports, and how far a request had gone when they happened.

use vstd::prelude::*;

use crate::event::{ClientVisibleUpstreamResponse, ProviderEvent};

verus! {

/// How far a request had gone towards the upstream service.
#[derive(Clone, Copy, Debug, PartialEq, Eq, Structural)]
pub enum UpstreamSendState {
    NotSent,
    Ambiguous,
    Sent,
}

/// The order of the send states: what is known to have been sent cannot be taken back.
pub open spec fn send_rank(state: UpstreamSendState) -> int {
    match state {
        UpstreamSendState::NotSent => 0,
        UpstreamSendState::Ambiguous => 1,
        UpstreamSendState::Sent => 2,
    }
}

/// The higher of two send states.
pub open spec fn highest_state(a: UpstreamSendState, b: UpstreamSendState) -> UpstreamSendState {
    if send_rank(a) >= send_rank(b) {
        a
    } else {
        b
    }
}

/// The state of a request of which the host saw one state and the plugin reported another. What the
/// host saw is a lower bound: a report can only raise it.
pub fn send_watermark(observed: UpstreamSendState, reported: UpstreamSendState) -> (state:
    UpstreamSendState)
    ensures
        state == highest_state(observed, reported),
{
    match (observed, reported) {
        (UpstreamSendState::Sent, _) | (_, UpstreamSendState::Sent) => UpstreamSendState::Sent,
        (UpstreamSendState::Ambiguous, _) | (_, UpstreamSendState::Ambiguous) => {
            UpstreamSendState::Ambiguous
        },
        _ => UpstreamSendState::NotSent,
    }
}

/// The watermark never falls below what the host saw or what was reported, is one of the two, and
/// does not depend on the order in which reports come in.
pub proof fn watermark_is_monotone(
    a: UpstreamSendState,
    b: UpstreamSendState,
    c: UpstreamSendState,
)
    ensures
        send_rank(highest_state(a, b)) >= send_rank(a),
        send_rank(highest_state(a, b)) >= send_rank(b),
        highest_state(a, b) == a || highest_state(a, b) == b,
        highest_state(a, b) == highest_state(b, a),
        highest_state(highest_state(a, b), c) == highest_state(a, highest_state(b, c)),
{
}

/// What kind of failure a provider reports to the engine.
#[derive(Clone, Copy, Debug, PartialEq, Eq, Structural)]
pub enum ProviderErrorKind {
    InvalidRequest,
    Unsupported,
    Unauthorized,
    PermissionDenied,
    RequestPolicyDenied,
    RateLimited,
    QuotaExhausted,
    NoEligibleAccount,
    AccountCapacityUnavailable,
    ProviderInfrastructureUnavailable,
    Unavailable,
    Protocol,
    Timeout,
    Cancelled,
}

/// Why a conversation could not be continued.
#[derive(Clone, Copy, Debug, PartialEq, Eq, Structural)]
pub enum ContinuationFailure {
    HistoryUnavailable,
}

/// Who can bring a conversation that was lost back.
#[derive(Clone, Copy, Debug, PartialEq, Eq, Structural)]
pub enum ContinuationRecoveryDisposition {
    ClientReplayRequired,
}

/// A failure that a provider reports to the engine.
pub struct ProviderError {
    pub kind: ProviderErrorKind,
    pub send_state: UpstreamSendState,
    pub status: Option<u16>,
    pub upstream_code: Option<String>,
    pub retry_after_ms: Option<u64>,
    pub upstream_request_id: Option<String>,
    pub continuation_failure: Option<ContinuationFailure>,
    pub continuation_recovery: Option<ContinuationRecoveryDisposition>,
    pub client_response: Option<ClientVisibleUpstreamResponse>,
    /// What the client is given together with the failure.
    pub client_event: Option<ProviderEvent>,
}

/// A failure with a kind and a send state, and nothing more.
pub open spec fn bare_error(kind: ProviderErrorKind, send_state: UpstreamSendState) -> ProviderError {
    ProviderError {
        kind,
        send_state,
        status: None,
        upstream_code: None,
        retry_after_ms: None,
        upstream_request_id: None,
        continuation_failure: None,
        continuation_recovery: None,
        client_response: None,
        client_event: None,
    }
}

/// A failure before anything was sent.
pub open spec fn unsent_error(kind: ProviderErrorKind) -> ProviderError {
    bare_error(kind, UpstreamSendState::NotSent)
}

impl ProviderError {
    pub fn new(kind: ProviderErrorKind, send_state: UpstreamSendState) -> (error: Self)
        ensures
            error == bare_error(kind, send_state),
    {
        ProviderError {
            kind,
            send_state,
            status: None,
            upstream_code: None,
            retry_after_ms: None,
            upstream_request_id: None,
            continuation_failure: None,
            continuation_recovery: None,
            client_response: None,
            client_event: None,
        }
    }

    pub fn unsent(kind: ProviderErrorKind) -> (error: Self)
        ensures
            error == unsent_error(kind),
    {
        ProviderError::new(kind, UpstreamSendState::NotSent)
    }
}

/// A plugin answered something that it may not answer, before a request was sent.
pub fn protocol_error() -> (error: ProviderError)
    ensures
        error == unsent_error(ProviderErrorKind::Protocol),
{
    ProviderError::unsent(ProviderErrorKind::Protocol)
}

/// A plugin answered something that it may not answer, in the midst of a stream.
pub fn stream_protocol_error() -> (error: ProviderError)
    ensures
        error == bare_error(ProviderErrorKind::Protocol, UpstreamSendState::Ambiguous),
{
    ProviderError::new(ProviderErrorKind::Protocol, UpstreamSendState::Ambiguous)
}

/// What the runtime's own services could not do.
pub fn infrastructure_unavailable() -> (error: ProviderError)
    ensures
        error == unsent_error(ProviderErrorKind::ProviderInfrastructureUnavailable),
{
    ProviderError::unsent(ProviderErrorKind::ProviderInfrastructureUnavailable)
}

/// The code of a fault that a plugin answered.
#[derive(Clone, Copy, Debug, PartialEq, Eq, Structural)]
pub enum ErrorCode {
    InvalidInput,
    Rejected,
    PermissionDenied,
    Unsupported,
    Conflict,
    Uncertain,
    Capacity,
    Timeout,
    Cancelled,
    /// Any other code.
    Other,
}

/// A fault that a plugin answered.
#[derive(Clone, Copy, Debug, PartialEq, Eq, Structural)]
pub struct PluginFault {
    pub code: ErrorCode,
    pub send_state: UpstreamSendState,
    pub http_status: Option<u16>,
}

/// How a call into a plugin failed.
#[derive(Clone, Copy, Debug, PartialEq, Eq, Structural)]
pub enum RpcError {
    Remote(PluginFault),
    Timeout,
    Protocol,
    Context,
    Closed,
    Cancelled,
    /// Any other failure of the session.
    Other,
}

/// The kind of failure that a fault's code stands for in the engine.
pub open spec fn fault_kind(code: ErrorCode) -> ProviderErrorKind {
    match code {
        ErrorCode::Unsupported => ProviderErrorKind::Unsupported,
        ErrorCode::Rejected
        | ErrorCode::InvalidInput
        | ErrorCode::PermissionDenied => ProviderErrorKind::InvalidRequest,
        ErrorCode::Timeout => ProviderErrorKind::Timeout,
        ErrorCode::Cancelled => ProviderErrorKind::Cancelled,
        _ => ProviderErrorKind::Unavailable,
    }
}

/// What the engine is told of a call that failed after the host had seen a send state.
pub open spec fn engine_error(error: RpcError, observed: UpstreamSendState) -> ProviderError {
    match error {
        RpcError::Remote(fault) => ProviderError {
            status: fault.http_status,
            ..bare_error(fault_kind(fault.code), highest_state(observed, fault.send_state))
        },
        RpcError::Timeout => bare_error(ProviderErrorKind::Timeout, observed),
        RpcError::Protocol | RpcError::Context => bare_error(ProviderErrorKind::Protocol, observed),
        _ => bare_error(ProviderErrorKind::Unavailable, observed),
    }
}

pub fn rpc_error(error: RpcError, observed: UpstreamSendState) -> (result: ProviderError)
    ensures
        result == engine_error(error, observed),
{
    match error {
        RpcError::Remote(fault) => {
            let kind = match fault.code {
                ErrorCode::Unsupported => ProviderErrorKind::Unsupported,
                ErrorCode::Rejected | ErrorCode::InvalidInput | ErrorCode::PermissionDenied => {
                    ProviderErrorKind::InvalidRequest
                },
                ErrorCode::Timeout => ProviderErrorKind::Timeout,
                ErrorCode::Cancelled => ProviderErrorKind::Cancelled,
                _ => ProviderErrorKind::Unavailable,
            };
            let mut result = ProviderError::new(kind, send_watermark(observed, fault.send_state));
            result.status = fault.http_status;
            result
        },
        RpcError::Timeout => ProviderError::new(ProviderErrorKind::Timeout, observed),
        RpcError::Protocol | RpcError::Context => {
            ProviderError::new(ProviderErrorKind::Protocol, observed)
        },
        _ => ProviderError::new(ProviderErrorKind::Unavailable, observed),
    }
}

/// A failed call never tells the engine that less was sent than the host saw.
pub proof fn failure_keeps_send_state(error: RpcError, observed: UpstreamSendState)
    ensures
        send_rank(engine_error(error, observed).send_state) >= send_rank(observed),
{
}

/// What kind of failure a management operation reports.
#[derive(Clone, Copy, Debug, PartialEq, Eq, Structural)]
pub enum ProviderAdminErrorKind {
    Invalid,
    Unsupported,
    NotFound,
    Conflict,
    Ambiguous,
    BadGateway,
    Unavailable,
    CredentialRefreshRequired,
    Internal,
}

/// A failure of a management operation.
#[derive(Clone, Copy, Debug, PartialEq, Eq, Structural)]
pub struct ProviderAdminError {
    pub kind: ProviderAdminErrorKind,
}

/// A failure of a management operation, by its kind.
pub open spec fn admin(kind: ProviderAdminErrorKind) -> ProviderAdminError {
    ProviderAdminError { kind }
}

impl ProviderAdminError {
    pub fn new(kind: ProviderAdminErrorKind) -> (error: Self)
        ensures
            error == admin(kind),
    {
        ProviderAdminError { kind }
    }
}

pub fn unsupported() -> (error: ProviderAdminError)
    ensures
        error == admin(ProviderAdminErrorKind::Unsupported),
{
    ProviderAdminError::new(ProviderAdminErrorKind::Unsupported)
}

pub fn invalid() -> (error: ProviderAdminError)
    ensures
        error == admin(ProviderAdminErrorKind::Invalid),
{
    ProviderAdminError::new(ProviderAdminErrorKind::Invalid)
}

pub fn unavailable() -> (error: ProviderAdminError)
    ensures
        error == admin(ProviderAdminErrorKind::Unavailable),
{
    ProviderAdminError::new(ProviderAdminErrorKind::Unavailable)
}

pub fn conflict() -> (error: ProviderAdminError)
    ensures
        error == admin(ProviderAdminErrorKind::Conflict),
{
    ProviderAdminError::new(ProviderAdminErrorKind::Conflict)
}

pub fn not_found() -> (error: ProviderAdminError)
    ensures
        error == admin(ProviderAdminErrorKind::NotFound),
{
    ProviderAdminError::new(ProviderAdminErrorKind::NotFound)
}

/// What kind of failure the administration reports.
#[derive(Clone, Copy, Debug, PartialEq, Eq, Structural)]
pub enum AdminErrorKind {
    Invalid,
    Unauthorized,
    Forbidden,
    NotFound,
    Conflict,
    BadGateway,
    UpstreamResultUnknown,
    Unavailable,
    RateLimited,
    Internal,
}

/// Why the administration refused.
#[derive(Clone, Copy, Debug, PartialEq, Eq, Structural)]
pub enum AdminReason {
    ProviderId,
    ProfileMaintenanceWithoutProfiles,
    ExecutorMissing,
    AccountsPermissionMissing,
    CredentialOperations,
    AccountOperations,
    ModelsOrFormats,
    TooManyHttpEndpoints,
    HttpEndpoint,
    TooManyModels,
    ModelId,
    ModelCapabilities,
    ProviderHttpAsModelOperation,
    TooManyMergedModels,
    ModelDiscovery,
    BillingCapability,
    TooManyPrices,
    PriceModelId,
    PriceWithoutStandard,
    PriceAmount,
    CredentialFormOperation,
    CredentialFormShape,
    CredentialFormSchema,
    ConfigurationOperation,
    ConfigurationFields,
    ConfigurationSchemaUnsafe,
    ConfigurationSchemaMissing,
    ConfigurationFieldUnsafe,
    ConfigurationFieldSchema,
    ContinuationState,
    ContinuationOwner,
    ContinuationRegistry,
    RequestProfiles,
    ProfileCacheRead,
    ProfileCache,
    MaintenanceBindingRepeated,
    MaintenanceBinding,
    LoginRelease,
    LoginMissing,
    LoginSettlement,
}

/// A failure that the administration reports.
#[derive(Clone, Copy, Debug, PartialEq, Eq, Structural)]
pub struct AdminError {
    pub kind: AdminErrorKind,
    pub reason: AdminReason,
}

/// The administration was asked for something invalid.
pub open spec fn refused(reason: AdminReason) -> AdminError {
    AdminError { kind: AdminErrorKind::Invalid, reason }
}

impl AdminError {
    pub fn invalid(reason: AdminReason) -> (error: Self)
        ensures
            error == refused(reason),
    {
        AdminError { kind: AdminErrorKind::Invalid, reason }
    }

    pub fn unavailable(reason: AdminReason) -> (error: Self)
        ensures
            error == (AdminError { kind: AdminErrorKind::Unavailable, reason }),
    {
        AdminError { kind: AdminErrorKind::Unavailable, reason }
    }

    pub fn internal(reason: AdminReason) -> (error: Self)
        ensures
            error == (AdminError { kind: AdminErrorKind::Internal, reason }),
    {
        AdminError { kind: AdminErrorKind::Internal, reason }
    }
}

/// What is known to have been sent counts before what may have been, and that before what was not.
pub proof fn sent_counts_most(a: UpstreamSendState, b: UpstreamSendState)
    ensures
        highest_state(a, b) is Sent <==> a is Sent || b is Sent,
        highest_state(a, b) is NotSent <==> a is NotSent && b is NotSent,
        send_rank(UpstreamSendState::NotSent) < send_rank(UpstreamSendState::Ambiguous),
        send_rank(UpstreamSendState::Ambiguous) < send_rank(UpstreamSendState::Sent),
{
}

/// The engine is told that it asked for something invalid exactly if the plugin refused the input, the
/// request or its permission; that something is not supported, took too long or was called off
/// exactly if the plugin, or for time the call, said so; and of a broken protocol only by the call.
pub proof fn failed_calls_by_kind(error: RpcError, observed: UpstreamSendState)
    ensures
        ({
            let told = engine_error(error, observed);
            let remote = error is Remote;
            let code = error->Remote_0.code;
            &&& told.kind is InvalidRequest <==> remote && (code is InvalidInput || code is Rejected
                || code is PermissionDenied)
            &&& told.kind is Unsupported <==> remote && code is Unsupported
            &&& told.kind is Timeout <==> error is Timeout || remote && code is Timeout
            &&& told.kind is Cancelled <==> remote && code is Cancelled
            &&& told.kind is Protocol <==> error is Protocol || error is Context
            &&& told.kind is Unavailable <==> !(told.kind is InvalidRequest || told.kind
                is Unsupported || told.kind is Timeout || told.kind is Cancelled || told.kind
                is Protocol)
        }),
{
}

/// The engine is told of a failed call with the status that the plugin saw and the furthest that a
/// request is known to have gone; a failure of the call itself says nothing but what the host saw.
pub proof fn failed_calls_as_reported(error: RpcError, observed: UpstreamSendState)
    ensures
        ({
            let told = engine_error(error, observed);
            &&& error is Remote ==> told.status == error->Remote_0.http_status && (told.send_state
                is Sent <==> observed is Sent || error->Remote_0.send_state is Sent) && (
            told.send_state is NotSent <==> observed is NotSent && error->Remote_0.send_state
                is NotSent)
            &&& !(error is Remote) ==> told.status is None && told.send_state == observed
            &&& told.upstream_code is None && told.retry_after_ms is None
            &&& told.upstream_request_id is None && told.client_response is None
            &&& told.client_event is None && told.continuation_failure is None
            &&& told.continuation_recovery is None
        }),
{
}

/// A bare failure says its kind and how far the request had gone, and nothing more.
pub proof fn bare_errors_say_no_more(kind: ProviderErrorKind, send_state: UpstreamSendState)
    ensures
        bare_error(kind, send_state).kind == kind,
        bare_error(kind, send_state).send_state == send_state,
        bare_error(kind, send_state).status is None,
        bare_error(kind, send_state).upstream_code is None,
        bare_error(kind, send_state).retry_after_ms is None,
        bare_error(kind, send_state).upstream_request_id is None,
        bare_error(kind, send_state).continuation_failure is None,
        bare_error(kind, send_state).continuation_recovery is None,
        bare_error(kind, send_state).client_response is None,
        bare_error(kind, send_state).client_event is None,
        unsent_error(kind).kind == kind && unsent_error(kind).send_state is NotSent,
{
}

/// What the administration refuses is invalid, and the reason is the one that it gives.
pub proof fn refusals_are_invalid(reason: AdminReason, kind: ProviderAdminErrorKind)
    ensures
        refused(reason).kind is Invalid,
        refused(reason).reason == reason,
        admin(kind).kind == kind,
{
}

} // verus!
