//! The execution of a request: what is checked before an account is chosen, what the plugin is given
//! to prepare it, when it may act, and what its answers mean.

use vstd::prelude::*;
use vstd::string::*;

pub mod run;

use crate::account::{LoadedCredential, ProviderAccount};
use crate::catalog::OperationKind;
use crate::continuation::{
    checkpoint_refused, invalid_checkpoint, read_checkpoint, ContinuationIdentity,
    InterpreterTarget, ProviderSessionState, SessionBinding,
};
use crate::decimal::{decimal, decimal_text};
use crate::extensions::ExtensionCallScope;
use crate::fault::{
    bare_error, engine_error, protocol_error, rpc_error, unsent_error, ProviderError,
    ProviderErrorKind, RpcError, UpstreamSendState,
};
use crate::json::{
    copy_members, encode, json_bytes, member, members_view, Json, JsonView,
};
use crate::manifest::Stage;
use crate::provider::{has_method, PluginProvider, ProviderHttpMethod};
use crate::record::{field_names, only_fields};
use crate::scope::{CallContext, NetworkScope};
use crate::text::{byte_len, holds, length_in_bytes, same, text_of, texts};

verus! {

/// How long one step of an execution may take at most, in nanoseconds.
pub const MAX_STEP_NANOS: u128 = 120_000_000_000;

/// How many bytes the name of a prepared execution has at most.
pub const MAX_TOKEN_BYTES: usize = 256;

/// How long it may take to give a prepared execution up, in milliseconds.
pub const DISCARD_TIMEOUT_MS: u64 = 1_000;

/// A header of an HTTP request.
pub struct ProviderHttpHeader {
    pub name: String,
    pub value: Vec<u8>,
}

/// A request to an HTTP endpoint of a provider.
pub struct ProviderHttpRequest {
    pub endpoint: String,
    pub method: ProviderHttpMethod,
    pub query: Option<String>,
    pub headers: Vec<ProviderHttpHeader>,
}

/// What a request asks for. `C` is what the protocol says of it besides its body.
pub enum Operation<C> {
    Generate { protocol: String, document: Json, context: C },
    GenerateImage { protocol: String, bytes: Vec<u8>, context: C },
    Search { protocol: String, bytes: Vec<u8>, context: C },
    CountTokens { protocol: String, bytes: Vec<u8>, context: C },
    ProviderHttp { protocol: String, bytes: Vec<u8>, context: C, request: ProviderHttpRequest },
    /// Anything else.
    Other,
}

/// A request as a plugin gets it.
pub struct WireRequest<C> {
    pub protocol: String,
    pub operation: OperationKind,
    pub body: Vec<u8>,
    pub context: C,
    pub http_request: Option<ProviderHttpRequest>,
}

/// A request is given to the plugin as it is; a document is written down.
pub open spec fn is_wired<C>(wire: WireRequest<C>, operation: Operation<C>) -> bool {
    match operation {
        Operation::Generate { protocol, document, context } => {
            &&& wire.protocol == protocol
            &&& wire.operation == OperationKind::Generate
            &&& json_bytes(document@) == Some(wire.body@)
            &&& wire.context == context
            &&& wire.http_request is None
        },
        Operation::GenerateImage { protocol, bytes, context } => {
            wire == (WireRequest {
                protocol,
                operation: OperationKind::GenerateImage,
                body: bytes,
                context,
                http_request: None,
            })
        },
        Operation::Search { protocol, bytes, context } => {
            wire == (WireRequest {
                protocol,
                operation: OperationKind::Search,
                body: bytes,
                context,
                http_request: None,
            })
        },
        Operation::CountTokens { protocol, bytes, context } => {
            wire == (WireRequest {
                protocol,
                operation: OperationKind::CountTokens,
                body: bytes,
                context,
                http_request: None,
            })
        },
        Operation::ProviderHttp { protocol, bytes, context, request } => {
            wire == (WireRequest {
                protocol,
                operation: OperationKind::ProviderHttp,
                body: bytes,
                context,
                http_request: Some(request),
            })
        },
        Operation::Other => false,
    }
}

/// A request as a plugin gets it. A document that cannot be written down breaks the protocol.
pub fn wire<C>(operation: Operation<C>) -> (result: Result<WireRequest<C>, ProviderError>)
    ensures
        is_wiring(operation, result),
{
    Ok(
        match operation {
            Operation::Generate { protocol, document, context } => {
                let body = match encode(&document) {
                    Some(body) => body,
                    None => return Err(protocol_error()),
                };
                WireRequest {
                    protocol,
                    operation: OperationKind::Generate,
                    body,
                    context,
                    http_request: None,
                }
            },
            Operation::GenerateImage { protocol, bytes, context } => WireRequest {
                protocol,
                operation: OperationKind::GenerateImage,
                body: bytes,
                context,
                http_request: None,
            },
            Operation::Search { protocol, bytes, context } => WireRequest {
                protocol,
                operation: OperationKind::Search,
                body: bytes,
                context,
                http_request: None,
            },
            Operation::CountTokens { protocol, bytes, context } => WireRequest {
                protocol,
                operation: OperationKind::CountTokens,
                body: bytes,
                context,
                http_request: None,
            },
            Operation::ProviderHttp { protocol, bytes, context, request } => WireRequest {
                protocol,
                operation: OperationKind::ProviderHttp,
                body: bytes,
                context,
                http_request: Some(request),
            },
            Operation::Other => {
                return Err(ProviderError::unsent(ProviderErrorKind::Unsupported));
            },
        },
    )
}

/// The protocol that a request is written in.
pub open spec fn protocol_of<C>(operation: Operation<C>) -> Option<Seq<char>> {
    match operation {
        Operation::Generate { protocol, .. } => Some(protocol@),
        Operation::GenerateImage { protocol, .. } => Some(protocol@),
        Operation::Search { protocol, .. } => Some(protocol@),
        Operation::CountTokens { protocol, .. } => Some(protocol@),
        Operation::ProviderHttp { protocol, .. } => Some(protocol@),
        Operation::Other => None,
    }
}

/// An operation that goes to an HTTP endpoint which the provider does not have, or not with that
/// method.
pub open spec fn lacks_endpoint<C>(provider: PluginProvider, operation: Operation<C>) -> bool {
    operation matches Operation::ProviderHttp { request, .. } && !provider.has_endpoint(
        request.endpoint@,
        request.method,
    )
}

/// Who carries on a conversation: the provider itself where it reads the checkpoint, else the process
/// that wrote it.
pub open spec fn is_target(
    identity: ContinuationIdentity,
    state: Option<&ProviderSessionState>,
    target: Result<InterpreterTarget, ProviderError>,
) -> bool {
    match state {
        None => target matches Ok(InterpreterTarget::Current { previous_owner }) && previous_owner
            is None,
        Some(state) => match read_checkpoint(state.document()) {
            Some(checkpoint) if identity.owns(*state, checkpoint) => {
                let owner = checkpoint.binding.execution_owner;
                if identity.interprets(checkpoint.binding) {
                    target matches Ok(InterpreterTarget::Current { previous_owner }) && (if owner
                        == identity.owner@ {
                        previous_owner is None
                    } else {
                        previous_owner matches Some(previous) && previous@ == owner
                    })
                } else if owner == identity.owner@ {
                    target matches Err(error) && error == checkpoint_refused()
                } else {
                    target matches Ok(InterpreterTarget::Retired { owner: found }) && found@
                        == owner
                }
            },
            _ => target matches Err(error) && error == checkpoint_refused(),
        },
    }
}

/// How long a step may take until a deadline, in nanoseconds.
pub open spec fn step_time(deadline: u128, now: u128) -> u128 {
    if deadline - now < MAX_STEP_NANOS {
        (deadline - now) as u128
    } else {
        MAX_STEP_NANOS
    }
}

/// How long a step may take, in nanoseconds. Points in time are in nanoseconds, too.
pub fn remaining(deadline: u128, now: u128) -> (result: Result<u128, ProviderError>)
    ensures
        match result {
            Ok(time) => deadline > now && time == step_time(deadline, now),
            Err(error) => deadline <= now && error == unsent_error(ProviderErrorKind::Timeout),
        },
{
    if deadline <= now {
        return Err(ProviderError::unsent(ProviderErrorKind::Timeout));
    }
    let left = deadline - now;
    Ok(
        if left < MAX_STEP_NANOS {
            left
        } else {
            MAX_STEP_NANOS
        },
    )
}

/// The same in milliseconds.
fn remaining_ms(deadline: u128, now: u128) -> (result: Result<u64, ProviderError>)
    ensures
        match result {
            Ok(ms) => deadline > now && ms == step_time(deadline, now) / 1_000_000,
            Err(error) => deadline <= now && error == unsent_error(ProviderErrorKind::Timeout),
        },
{
    match remaining(deadline, now) {
        Ok(time) => Ok((time / 1_000_000) as u64),
        Err(error) => Err(error),
    }
}

/// What a checkpoint carries over to an execution on an account: nothing where there is none, and
/// `None` where the checkpoint is not one that may be carried over.
pub open spec fn carried_over(
    identity: ContinuationIdentity,
    account: ProviderAccount,
    state: Option<&ProviderSessionState>,
) -> Option<Option<Map<Seq<char>, JsonView>>> {
    match state {
        None => Some(None),
        Some(state) => match read_checkpoint(state.document()) {
            Some(checkpoint) => if identity.owns(*state, checkpoint)
                && checkpoint.binding.account_id == account.id@
                && checkpoint.binding.credential_revision == account.revision
                && identity.interprets(checkpoint.binding) {
                Some(Some(checkpoint.payload))
            } else {
                None
            },
            None => None,
        },
    }
}

/// What belongs to one attempt at a request.
pub struct Attempt {
    pub request_id: String,
    pub index: u32,
    /// In nanoseconds.
    pub deadline: u128,
    /// What the chosen client stands for.
    pub request_profile: Option<Vec<(String, Json)>>,
}

/// What a plugin prepares an execution from.
pub struct ExecutionInput<C> {
    pub wire: WireRequest<C>,
    pub model: Option<String>,
    pub account_id: String,
    pub credential_revision: u64,
    pub credential: Vec<(String, Json)>,
    pub request_profile: Option<Vec<(String, Json)>>,
    pub headers: Vec<ProviderHttpHeader>,
    pub provider_session_state: Option<Vec<(String, Json)>>,
}

/// An execution before the plugin has prepared it: the context of the call, what it may do on the
/// network once it is active, and to what its checkpoints are bound.
pub struct PreparedAttempt<C> {
    pub context: CallContext,
    pub scope: NetworkScope,
    pub binding: SessionBinding,
    pub input: ExecutionInput<C>,
}

/// The fields of an object, where there is one.
pub open spec fn members_of(members: Option<Vec<(String, Json)>>) -> Option<
    Map<Seq<char>, JsonView>,
> {
    match members {
        Some(members) => Some(members_view(members@)),
        None => None,
    }
}

/// The context in which an attempt is prepared.
pub open spec fn is_attempt_context(
    context: CallContext,
    attempt: Attempt,
    account: ProviderAccount,
    now: u128,
) -> bool {
    &&& context.stage == Stage::Attempt
    &&& text_of(context.request_id) == Some(attempt.request_id@)
    &&& text_of(context.attempt_id) == Some(
        attempt.request_id@ + ":"@ + decimal_text(attempt.index as nat),
    )
    &&& text_of(context.account_id) == Some(account.id@)
    &&& context.credential_revision == Some(account.revision)
    &&& context.timeout_ms == step_time(attempt.deadline, now) / 1_000_000
}

impl<C> PreparedAttempt<C> {
    /// The execution of an attempt on an account: it may not act yet, and its checkpoints are bound to
    /// the account as it is.
    pub open spec fn is_prepared(
        &self,
        provider: PluginProvider,
        wire: WireRequest<C>,
        credential: LoadedCredential,
        state: Option<&ProviderSessionState>,
        attempt: Attempt,
        now: u128,
    ) -> bool {
        let account = credential.account;
        &&& is_attempt_context(self.context, attempt, account, now)
        &&& self.scope.stage == Stage::Execution
        &&& self.scope.account_id == self.context.account_id
        &&& self.scope.credential_revision == self.context.credential_revision
        &&& self.scope.proxy == account.outbound_proxy
        &&& !self.scope.active
        &&& self.scope.state() == UpstreamSendState::NotSent
        &&& self.binding.identity.is_copy(&provider.continuation)
        &&& self.binding.account_id@ == account.id@
        &&& self.binding.credential_revision == account.revision
        &&& !self.binding.issued
        &&& self.input.wire == wire
        &&& self.input.account_id@ == account.id@
        &&& self.input.credential_revision == account.revision
        &&& members_view(self.input.credential@) == members_view(credential.credential@)
        &&& members_of(self.input.request_profile) == members_of(attempt.request_profile)
        &&& carried_over(provider.continuation, account, state) == Some(
            members_of(self.input.provider_session_state),
        )
    }

    /// The context in which the execution is carried out.
    pub fn execution_context(&self, deadline: u128, now: u128) -> (result: Result<
        CallContext,
        ProviderError,
    >)
        ensures
            is_execution_context(self.context, deadline, now, result),
    {
        match remaining_ms(deadline, now) {
            Ok(timeout_ms) => Ok(
                CallContext {
                    stage: Stage::Execution,
                    request_id: self.context.request_id.clone(),
                    attempt_id: self.context.attempt_id.clone(),
                    account_id: self.context.account_id.clone(),
                    credential_revision: self.context.credential_revision,
                    timeout_ms,
                },
            ),
            Err(error) => Err(error),
        }
    }

    /// Begins the execution: from now on the plugin may act. When the time is over it may not.
    pub fn activate(&mut self, deadline: u128, now: u128) -> (result: Result<
        CallContext,
        ProviderError,
    >)
        ensures
            final(self).context == old(self).context,
            final(self).binding == old(self).binding,
            final(self).input == old(self).input,
            final(self).scope.same_facts(&old(self).scope),
            final(self).scope.active == (old(self).scope.active || result is Ok),
            is_execution_context(old(self).context, deadline, now, result),
    {
        match self.execution_context(deadline, now) {
            Ok(context) => {
                self.scope.activate();
                Ok(context)
            },
            Err(error) => Err(error),
        }
    }

    /// The context in which a prepared execution is given up.
    pub fn discard_context(&self) -> (context: CallContext)
        ensures
            context == (CallContext { timeout_ms: DISCARD_TIMEOUT_MS, ..self.context }),
    {
        CallContext {
            stage: self.context.stage,
            request_id: self.context.request_id.clone(),
            attempt_id: self.context.attempt_id.clone(),
            account_id: self.context.account_id.clone(),
            credential_revision: self.context.credential_revision,
            timeout_ms: DISCARD_TIMEOUT_MS,
        }
    }
}

/// What a plugin answers that has prepared an execution.
pub struct PreparedExecution {
    pub token: String,
    pub transport: String,
    /// The transport is one that the host knows.
    pub is_transport: bool,
}

/// An answer that can be used.
pub open spec fn is_prepared_execution(prepared: PreparedExecution, payload: Seq<u8>) -> bool {
    &&& payload.len() == 0
    &&& 0 < byte_len(prepared.token@) <= MAX_TOKEN_BYTES
}

/// What came of a call: what was answered, with bytes besides, or why it failed. What was answered is
/// nothing where it is not what was asked for.
pub enum CallReply<T> {
    Answered { result: Option<T>, payload: Vec<u8> },
    Failed(RpcError),
}

/// What comes of asking the plugin to prepare an execution: nothing was sent yet.
pub fn prepared(reply: CallReply<PreparedExecution>) -> (result: Result<
    PreparedExecution,
    ProviderError,
>)
    ensures
        match reply {
            CallReply::Failed(fault) => result matches Err(error) && error == engine_error(
                fault,
                UpstreamSendState::NotSent,
            ),
            CallReply::Answered { result: Some(answer), payload } if is_prepared_execution(
                answer,
                payload@,
            ) => result matches Ok(kept) && kept == answer,
            _ => result matches Err(error) && error == unsent_error(ProviderErrorKind::Protocol),
        },
{
    match reply {
        CallReply::Failed(fault) => Err(rpc_error(fault, UpstreamSendState::NotSent)),
        CallReply::Answered { result: None, .. } => Err(protocol_error()),
        CallReply::Answered { result: Some(answer), payload } => {
            let length = length_in_bytes(answer.token.as_str());
            if payload.len() > 0 || length == 0 || length > MAX_TOKEN_BYTES {
                Err(protocol_error())
            } else {
                Ok(answer)
            }
        },
    }
}

/// Whether the transport of a prepared execution is one that the host knows. The execution is there
/// already, and is given up where it is not.
pub fn known_transport(prepared: &PreparedExecution) -> (result: Result<(), ProviderError>)
    ensures
        match result {
            Ok(_) => prepared.is_transport,
            Err(error) => !prepared.is_transport && error == unsent_error(
                ProviderErrorKind::Protocol,
            ),
        },
{
    if prepared.is_transport {
        Ok(())
    } else {
        Err(protocol_error())
    }
}

/// The answer of an execution that streams.
pub open spec fn streams() -> JsonView {
    JsonView::Object(Map::empty().insert("stream"@, JsonView::Bool(true)))
}

fn says_stream(answer: &Json) -> (r: bool)
    ensures
        r == (answer@ == streams()),
{
    let names: Vec<&'static str> = vec!["stream"];
    let streaming = match answer {
        Json::Object(_) => match answer.get("stream") {
            Some(value) => value.is_bool(true),
            None => false,
        },
        _ => false,
    };
    let r = streaming && only_fields(answer, &names);
    proof {
        assert(field_names(names@) =~= seq!["stream"@]);
        if r {
            let members = answer@->Object_0;
            assert(members.dom() =~= streams()->Object_0.dom()) by {
                assert forall|name: Seq<char>| members.contains_key(name) implies name
                    == "stream"@ by {
                    assert(seq!["stream"@].contains(name));
                }
            }
            assert(members =~= streams()->Object_0);
        } else if answer@ == streams() {
            assert(member(answer@, "stream"@) == Some(JsonView::Bool(true)));
            assert forall|name: Seq<char>| #[trigger]
                (answer@->Object_0).contains_key(name) implies seq!["stream"@].contains(name) by {
                assert(seq!["stream"@][0] == name);
            }
        }
    }
    r
}

/// What comes of asking the plugin to execute. `state` is how far the execution has gone, which a
/// failure tells.
pub fn opened(reply: CallReply<Json>, state: UpstreamSendState) -> (result: Result<(), ProviderError>)
    ensures
        match reply {
            CallReply::Failed(fault) => result matches Err(error) && error == engine_error(
                fault,
                state,
            ),
            CallReply::Answered { result: Some(answer), payload } if payload@.len() == 0
                && answer@ == streams() => result is Ok,
            _ => result matches Err(error) && error == bare_error(
                ProviderErrorKind::Protocol,
                state,
            ),
        },
{
    match reply {
        CallReply::Failed(fault) => Err(rpc_error(fault, state)),
        CallReply::Answered { result: None, .. } => Err(
            ProviderError::new(ProviderErrorKind::Protocol, state),
        ),
        CallReply::Answered { result: Some(answer), payload } => {
            if payload.len() == 0 && says_stream(&answer) {
                Ok(())
            } else {
                Err(ProviderError::new(ProviderErrorKind::Protocol, state))
            }
        },
    }
}

/// What a failure in the middle of an execution means that has gone as far as `state`.
pub fn interrupted(fault: RpcError, state: UpstreamSendState) -> (error: ProviderError)
    ensures
        error == engine_error(fault, state),
{
    rpc_error(fault, state)
}

/// What comes of preparing an attempt at a request on an account: it is refused for its form, its
/// protocol, its checkpoint or its time, or it is prepared as it is.
pub open spec fn is_preparation<C>(
    provider: PluginProvider,
    operation: Operation<C>,
    model: Option<String>,
    headers: Vec<ProviderHttpHeader>,
    credential: LoadedCredential,
    state: Option<&ProviderSessionState>,
    attempt: Attempt,
    now: u128,
    result: Result<PreparedAttempt<C>, ProviderError>,
) -> bool {
    if operation is Other {
        result matches Err(error) && error == unsent_error(ProviderErrorKind::Unsupported)
    } else if operation matches Operation::Generate { document, .. } && json_bytes(
        document@,
    ) is None {
        result matches Err(error) && error == unsent_error(ProviderErrorKind::Protocol)
    } else if protocol_of(operation) matches Some(protocol) && !texts(
        provider.input_formats@,
    ).contains(protocol) {
        result matches Err(error) && error == unsent_error(ProviderErrorKind::Unsupported)
    } else if carried_over(provider.continuation, credential.account, state) is None {
        result matches Err(error) && error == checkpoint_refused()
    } else if attempt.deadline <= now {
        result matches Err(error) && error == unsent_error(ProviderErrorKind::Timeout)
    } else {
        result matches Ok(prepared) && is_wired(prepared.input.wire, operation)
            && prepared.is_prepared(
            provider,
            prepared.input.wire,
            credential,
            state,
            attempt,
            now,
        ) && prepared.input.model == model && prepared.input.headers == headers
    }
}

impl PluginProvider {
    /// The provider has an HTTP endpoint that takes a method.
    pub open spec fn has_endpoint(&self, endpoint: Seq<char>, method: ProviderHttpMethod) -> bool {
        self.http_endpoints@.contains_key(endpoint)
            && self.http_endpoints@[endpoint]@.contains(method)
    }

    /// Whether a request may be executed here: the plugin is not on the request's way already, and an
    /// HTTP endpoint that the request names is one of the provider's.
    pub fn begin_execution<C>(
        &self,
        scope: &ExtensionCallScope,
        operation: &Operation<C>,
    ) -> (result: Result<(), ProviderError>)
        ensures
            if scope@.contains(self.instance_id@) {
                result matches Err(error) && error == unsent_error(
                    ProviderErrorKind::PermissionDenied,
                )
            } else if lacks_endpoint(*self, *operation) {
                result matches Err(error) && error == unsent_error(ProviderErrorKind::Unsupported)
            } else {
                result is Ok
            },
    {
        if scope.contains(self.instance_id.as_str()) {
            return Err(ProviderError::unsent(ProviderErrorKind::PermissionDenied));
        }
        match operation {
            Operation::ProviderHttp { request, .. } => {
                let known = match self.http_endpoints.get(request.endpoint.as_str()) {
                    Some(methods) => has_method(methods, request.method),
                    None => false,
                };
                if known {
                    Ok(())
                } else {
                    Err(ProviderError::unsent(ProviderErrorKind::Unsupported))
                }
            },
            _ => Ok(()),
        }
    }

    /// A process that was replaced may carry on a conversation of this provider: it is the same
    /// provider of the same instance, under the same authority.
    pub open spec fn may_take_over(&self, current: &Self) -> bool {
        &&& self.instance_id@ == current.instance_id@
        &&& self.kind@ == current.kind@
        &&& self.continuation.shares_authority(&current.continuation)
    }

    /// Whether the process that was found for a conversation may carry it on.
    pub fn take_over(&self, found: Option<&PluginProvider>) -> (result: Result<(), ProviderError>)
        ensures
            match found {
                Some(retired) if retired.may_take_over(self) => result is Ok,
                _ => result matches Err(error) && error == checkpoint_refused(),
            },
    {
        match found {
            Some(retired) => if same(retired.instance_id.as_str(), self.instance_id.as_str())
                && same(retired.kind.as_str(), self.kind.as_str())
                && retired.continuation.matches_authority(&self.continuation) {
                Ok(())
            } else {
                Err(invalid_checkpoint())
            },
            None => Err(invalid_checkpoint()),
        }
    }

    /// How the execution of a request begins: an account is chosen, or the request is handed over to
    /// the process that reads its checkpoint.
    pub fn start_execution<C>(
        &self,
        scope: &ExtensionCallScope,
        operation: &Operation<C>,
        state: Option<&ProviderSessionState>,
    ) -> (result: Result<InterpreterTarget, ProviderError>)
        ensures
            if scope@.contains(self.instance_id@) {
                result matches Err(error) && error == unsent_error(
                    ProviderErrorKind::PermissionDenied,
                )
            } else if lacks_endpoint(*self, *operation) {
                result matches Err(error) && error == unsent_error(ProviderErrorKind::Unsupported)
            } else {
                is_target(self.continuation, state, result)
            },
    {
        match self.begin_execution(scope, operation) {
            Ok(()) => self.continuation.interpreter_target(state),
            Err(error) => Err(error),
        }
    }

    /// Prepares an attempt at a request on an account, once the request has gone through the other
    /// plugins.
    pub fn prepare_operation<C>(
        &self,
        operation: Operation<C>,
        model: Option<String>,
        headers: Vec<ProviderHttpHeader>,
        credential: &LoadedCredential,
        state: Option<&ProviderSessionState>,
        attempt: &Attempt,
        now: u128,
    ) -> (result: Result<PreparedAttempt<C>, ProviderError>)
        ensures
            is_preparation(
                *self,
                operation,
                model,
                headers,
                *credential,
                state,
                *attempt,
                now,
                result,
            ),
    {
        match wire(operation) {
            Ok(wire) => self.prepare_attempt(
                wire,
                model,
                headers,
                credential,
                state,
                attempt,
                now,
            ),
            Err(error) => Err(error),
        }
    }

    /// Prepares an attempt at a request on an account.
    pub fn prepare_attempt<C>(
        &self,
        wire: WireRequest<C>,
        model: Option<String>,
        headers: Vec<ProviderHttpHeader>,
        credential: &LoadedCredential,
        state: Option<&ProviderSessionState>,
        attempt: &Attempt,
        now: u128,
    ) -> (result: Result<PreparedAttempt<C>, ProviderError>)
        ensures
            if !texts(self.input_formats@).contains(wire.protocol@) {
                result matches Err(error) && error == unsent_error(ProviderErrorKind::Unsupported)
            } else if carried_over(self.continuation, credential.account, state) is None {
                result matches Err(error) && error == checkpoint_refused()
            } else if attempt.deadline <= now {
                result matches Err(error) && error == unsent_error(ProviderErrorKind::Timeout)
            } else {
                result matches Ok(prepared) && prepared.is_prepared(
                    *self,
                    wire,
                    *credential,
                    state,
                    *attempt,
                    now,
                ) && prepared.input.model == model && prepared.input.headers == headers
            },
    {
        if !holds(&self.input_formats, wire.protocol.as_str()) {
            return Err(ProviderError::unsent(ProviderErrorKind::Unsupported));
        }
        let account = &credential.account;
        let binding = self.continuation.bind_account(
            account.id.as_str().to_owned(),
            account.revision,
        );
        let provider_session_state = match binding.restore(state) {
            Ok(payload) => payload,
            Err(error) => return Err(error),
        };
        let timeout_ms = match remaining_ms(attempt.deadline, now) {
            Ok(timeout_ms) => timeout_ms,
            Err(error) => return Err(error),
        };
        let mut attempt_id = attempt.request_id.as_str().to_owned();
        attempt_id.append(":");
        attempt_id.append(decimal(attempt.index as u64).as_str());
        let context = CallContext {
            stage: Stage::Attempt,
            request_id: Some(attempt.request_id.as_str().to_owned()),
            attempt_id: Some(attempt_id),
            account_id: Some(account.id.as_str().to_owned()),
            credential_revision: Some(account.revision),
            timeout_ms,
        };
        let scope = NetworkScope::new(&context, account.outbound_proxy.clone());
        let input = ExecutionInput {
            wire,
            model,
            account_id: account.id.as_str().to_owned(),
            credential_revision: account.revision,
            credential: copy_members(&credential.credential),
            request_profile: match &attempt.request_profile {
                Some(profile) => Some(copy_members(profile)),
                None => None,
            },
            headers,
            provider_session_state,
        };
        Ok(PreparedAttempt { context, scope, binding, input })
    }
}

/// Before an execution is active no callback of the plugin is let through, and afterwards those of the
/// execution are.
pub proof fn acts_only_when_active(scope: NetworkScope, active: NetworkScope, callback: CallContext)
    requires
        !scope.active,
        active.active,
        active.same_facts(&scope),
        callback.stage == scope.stage,
        text_of(callback.account_id) == text_of(scope.account_id),
        callback.credential_revision == scope.credential_revision,
    ensures
        !scope.covers(&callback),
        active.covers(&callback),
{
}

/// A conversation is only carried over to the account, and to the version of its credential, that it
/// was held on.
pub proof fn carried_over_where_held(
    identity: ContinuationIdentity,
    account: ProviderAccount,
    state: ProviderSessionState,
)
    requires
        carried_over(identity, account, Some(&state)) is Some,
    ensures
        read_checkpoint(state.document()) matches Some(checkpoint)
            && checkpoint.binding.account_id == account.id@ && checkpoint.binding.credential_revision
            == account.revision && checkpoint.binding.provider == identity.provider@,
{
}

/// The attempts at a request are told apart.
pub proof fn attempts_are_told_apart(request: Seq<char>, a: nat, b: nat)
    requires
        request + ":"@ + decimal_text(a) == request + ":"@ + decimal_text(b),
    ensures
        a == b,
{
    let n = (request + ":"@).len() as int;
    assert((request + ":"@ + decimal_text(a)).skip(n) =~= decimal_text(a));
    assert((request + ":"@ + decimal_text(b)).skip(n) =~= decimal_text(b));
    crate::decimal::numbers_are_told_apart(a, b);
}

/// A plugin gets a request in the protocol in which it was made, as the operation that it is, with
/// what the protocol says of it; it gets the bytes as they are, and an endpoint exactly if the request
/// goes to one.
pub proof fn wired_as_asked<C>(wire: WireRequest<C>, operation: Operation<C>)
    requires
        is_wired(wire, operation),
    ensures
        protocol_of(operation) == Some(wire.protocol@),
        operation is Generate <==> wire.operation is Generate,
        operation is GenerateImage <==> wire.operation is GenerateImage,
        operation is Search <==> wire.operation is Search,
        operation is CountTokens <==> wire.operation is CountTokens,
        operation is ProviderHttp <==> wire.operation is ProviderHttp,
        !(operation is Other),
        wire.http_request is Some <==> operation is ProviderHttp,
        operation matches Operation::Generate { protocol, document, context } ==> wire.protocol
            == protocol && json_bytes(document@) == Some(wire.body@) && wire.context == context,
        operation matches Operation::GenerateImage { protocol, bytes, context } ==> wire.protocol
            == protocol && wire.body == bytes && wire.context == context,
        operation matches Operation::Search { protocol, bytes, context } ==> wire.protocol
            == protocol && wire.body == bytes && wire.context == context,
        operation matches Operation::CountTokens { protocol, bytes, context } ==> wire.protocol
            == protocol && wire.body == bytes && wire.context == context,
        operation matches Operation::ProviderHttp { protocol, bytes, context, request }
            ==> wire.protocol == protocol && wire.body == bytes && wire.context == context
            && wire.http_request == Some(request),
{
}

/// A step may take until the deadline, and two minutes at most.
pub proof fn steps_are_bounded(deadline: u128, now: u128)
    requires
        now < deadline,
    ensures
        0 < step_time(deadline, now) <= 120_000_000_000,
        now + step_time(deadline, now) <= deadline,
        deadline - now <= 120_000_000_000 ==> now + step_time(deadline, now) == deadline,
        deadline - now > 120_000_000_000 ==> step_time(deadline, now) == 120_000_000_000,
{
}

/// What a conversation carries over: nothing where it is new; what the plugin put into its checkpoint
/// where that is the provider's own, is read by it, and is bound to the account and the revision;
/// and in any other case it is not carried on.
pub proof fn carried_over_exactly(
    identity: ContinuationIdentity,
    account: ProviderAccount,
    state: ProviderSessionState,
)
    ensures
        carried_over(identity, account, None) == Some(None::<Map<Seq<char>, JsonView>>),
        ({
            let read = read_checkpoint(state.document());
            let over = carried_over(identity, account, Some(&state));
            let fit = read is Some && identity.owns(state, read->0) && identity.interprets(
                read->0.binding,
            ) && read->0.binding.account_id == account.id@ && read->0.binding.credential_revision
                == account.revision;
            &&& fit ==> over == Some(Some(read->0.payload))
            &&& !fit ==> over is None
        }),
{
}

/// An attempt is made for the account and the revision of the credential that is used: its calls say
/// so, its checkpoints are bound to it, and what the plugin is given names it. The plugin may do
/// nothing on the network yet, and will do what it does through the account's proxy.
pub proof fn attempt_is_for_its_account<C>(
    prepared: PreparedAttempt<C>,
    provider: PluginProvider,
    wire: WireRequest<C>,
    credential: LoadedCredential,
    state: Option<&ProviderSessionState>,
    attempt: Attempt,
    now: u128,
)
    requires
        prepared.is_prepared(provider, wire, credential, state, attempt, now),
    ensures
        ({
            let account = credential.account;
            &&& prepared.context.account_id is Some && prepared.context.account_id->0@ == account.id@
            &&& prepared.context.credential_revision == Some(account.revision)
            &&& prepared.scope.account_id is Some && prepared.scope.account_id->0@ == account.id@
            &&& prepared.scope.credential_revision == Some(account.revision)
            &&& prepared.binding.account_id@ == account.id@
            &&& prepared.binding.credential_revision == account.revision
            &&& prepared.input.account_id@ == account.id@
            &&& prepared.input.credential_revision == account.revision
            &&& prepared.scope.proxy == account.outbound_proxy
        }),
        !prepared.scope.active && prepared.scope.state() is NotSent,
        !prepared.binding.issued,
        prepared.context.stage is Attempt && prepared.scope.stage is Execution,
        prepared.binding.identity.owner == provider.continuation.owner,
        prepared.binding.identity.provider == provider.continuation.provider,
        prepared.input.wire == wire,
        members_view(prepared.input.credential@) == members_view(credential.credential@),
        prepared.input.request_profile is Some <==> attempt.request_profile is Some,
        attempt.request_profile is Some ==> members_view(prepared.input.request_profile->0@)
            == members_view(attempt.request_profile->0@),
        state is None ==> prepared.input.provider_session_state is None,
{
}

/// The calls of an attempt are known by the request, and by its number after a colon; each may take as
/// many whole milliseconds as a step may take.
pub proof fn attempts_by_name(
    context: CallContext,
    attempt: Attempt,
    account: ProviderAccount,
    now: u128,
)
    requires
        is_attempt_context(context, attempt, account, now),
    ensures
        context.stage is Attempt,
        context.request_id is Some && context.request_id->0@ == attempt.request_id@,
        context.attempt_id is Some && context.attempt_id->0@ == attempt.request_id@ + ":"@
            + decimal_text(attempt.index as nat),
        now < attempt.deadline ==> context.timeout_ms * 1_000_000 <= attempt.deadline - now
            && context.timeout_ms <= 120_000,
{
}

/// An attempt is prepared exactly if it is a request that can be written down, in a protocol that the
/// provider takes, with a conversation that may be carried on, and before its time is over.
pub proof fn prepared_exactly_if<C>(
    provider: PluginProvider,
    operation: Operation<C>,
    model: Option<String>,
    headers: Vec<ProviderHttpHeader>,
    credential: LoadedCredential,
    state: Option<&ProviderSessionState>,
    attempt: Attempt,
    now: u128,
    result: Result<PreparedAttempt<C>, ProviderError>,
)
    requires
        is_preparation(
            provider,
            operation,
            model,
            headers,
            credential,
            state,
            attempt,
            now,
            result,
        ),
    ensures
        result is Ok <==> !(operation is Other) && (operation matches Operation::Generate {
            document,
            ..
        } ==> json_bytes(document@) is Some) && texts(provider.input_formats@).contains(
            protocol_of(operation)->0,
        ) && carried_over(provider.continuation, credential.account, state) is Some && now
            < attempt.deadline,
        result matches Ok(prepared) ==> prepared.input.model == model && prepared.input.headers
            == headers && is_wired(prepared.input.wire, operation),
        result matches Err(error) ==> error.send_state is NotSent && (error.kind is Unsupported
            || error.kind is Protocol || error.kind is Timeout || error == checkpoint_refused()),
        operation is Other ==> result->Err_0.kind is Unsupported,
{
}

/// A request for an endpoint is turned away exactly if the provider has no such endpoint, or not with
/// that method; no other request is.
pub proof fn endpoints_are_known<C>(provider: PluginProvider, operation: Operation<C>)
    ensures
        !(operation is ProviderHttp) ==> !lacks_endpoint(provider, operation),
        operation matches Operation::ProviderHttp { protocol, bytes, context, request } ==> (
        !lacks_endpoint(provider, operation) <==> provider.http_endpoints@.contains_key(
            request.endpoint@,
        ) && provider.http_endpoints@[request.endpoint@]@.contains(request.method)),
{
}

/// A process that was replaced may carry on a conversation exactly if it is of the same instance and
/// the same provider, and holds the same standing authorization.
pub proof fn taken_over_by_its_like(retired: PluginProvider, current: PluginProvider)
    ensures
        retired.may_take_over(&current) <==> retired.instance_id@ == current.instance_id@
            && retired.kind@ == current.kind@ && retired.continuation.provider@
            == current.continuation.provider@ && retired.continuation.continuation_authorization@
            == current.continuation.continuation_authorization@,
{
}

/// What a plugin answers that has prepared an execution is used exactly if it came with no bytes and
/// names the execution with 1 to 256 bytes.
pub proof fn prepared_answers(prepared: PreparedExecution, payload: Seq<u8>)
    ensures
        is_prepared_execution(prepared, payload) <==> payload.len() == 0 && 1 <= byte_len(
            prepared.token@,
        ) <= 256,
{
}

/// An execution that streams says that it does, and nothing more.
pub proof fn streaming_is_said()
    ensures
        streams() matches JsonView::Object(said) && said.dom() == set!["stream"@]
            && said["stream"@] == JsonView::Bool(true),
{
    assert(streams()->Object_0.dom() =~= set!["stream"@]);
}

/// A checkpoint is read by the provider that is asked where it reads it, and otherwise by the process
/// that wrote it, unless that is this one; where it is not the provider's own, it is refused. Who
/// wrote it is remembered where that is another.
pub proof fn checkpoints_find_their_reader(
    identity: ContinuationIdentity,
    state: ProviderSessionState,
    target: Result<InterpreterTarget, ProviderError>,
)
    requires
        is_target(identity, Some(&state), target),
    ensures
        ({
            let read = read_checkpoint(state.document());
            let own = read is Some && identity.owns(state, read->0);
            let reads = identity.interprets(read->0.binding);
            let writer = read->0.binding.execution_owner;
            &&& target is Ok <==> own && (reads || writer != identity.owner@)
            &&& target matches Err(error) ==> error == checkpoint_refused()
            &&& target matches Ok(InterpreterTarget::Current { previous_owner }) ==> reads && (
            previous_owner is Some <==> writer != identity.owner@) && (previous_owner is Some
                ==> previous_owner->0@ == writer)
            &&& target matches Ok(InterpreterTarget::Retired { owner }) ==> !reads && owner@ == writer
                && writer != identity.owner@
        }),
{
}

/// The context in which an attempt is executed, if time is left.
pub open spec fn is_execution_context(
    attempt: CallContext,
    deadline: u128,
    now: u128,
    result: Result<CallContext, ProviderError>,
) -> bool {
    match result {
        Ok(context) => {
            &&& deadline > now
            &&& context.stage == Stage::Execution
            &&& context.timeout_ms == step_time(deadline, now) / 1_000_000
            &&& context.request_id == attempt.request_id
            &&& context.attempt_id == attempt.attempt_id
            &&& context.account_id == attempt.account_id
            &&& context.credential_revision == attempt.credential_revision
        },
        Err(error) => deadline <= now && error == unsent_error(ProviderErrorKind::Timeout),
    }
}

/// What becomes of an operation that is handed to the plugin.
pub open spec fn is_wiring<C>(
    operation: Operation<C>,
    result: Result<WireRequest<C>, ProviderError>,
) -> bool {
    match operation {
        Operation::Other => result matches Err(error) && error == unsent_error(
            ProviderErrorKind::Unsupported,
        ),
        Operation::Generate { document, .. } => match result {
            Ok(wire) => is_wired(wire, operation),
            Err(error) => json_bytes(document@) is None && error == unsent_error(
                ProviderErrorKind::Protocol,
            ),
        },
        _ => result matches Ok(wire) && is_wired(wire, operation),
    }
}

/// An attempt is executed for the account that it was prepared for, as long as its deadline is to come,
/// and never for longer than until then or for more than two minutes.
pub proof fn executed_in_time(
    attempt: CallContext,
    deadline: u128,
    now: u128,
    result: Result<CallContext, ProviderError>,
)
    requires
        is_execution_context(attempt, deadline, now, result),
    ensures
        result is Ok <==> now < deadline,
        result matches Err(error) ==> error.kind is Timeout && error.send_state is NotSent,
        result matches Ok(context) ==> {
            &&& context.stage is Execution
            &&& context.timeout_ms <= 120_000
            &&& now + context.timeout_ms * 1_000_000 <= deadline
            &&& (deadline - now <= 120_000_000_000 ==> deadline < now + (context.timeout_ms + 1)
                * 1_000_000)
            &&& context.account_id == attempt.account_id
            &&& context.credential_revision == attempt.credential_revision
            &&& context.request_id == attempt.request_id
            &&& context.attempt_id == attempt.attempt_id
        },
{
    if now < deadline {
        steps_are_bounded(deadline, now);
    }
}

/// Every operation that the engine knows can be handed to the plugin, unless its document cannot be
/// written.
pub proof fn handed_over_if_known<C>(
    operation: Operation<C>,
    result: Result<WireRequest<C>, ProviderError>,
)
    requires
        is_wiring(operation, result),
    ensures
        operation is Other ==> (result matches Err(error) && error.kind is Unsupported),
        operation is GenerateImage || operation is Search || operation is CountTokens || operation
            is ProviderHttp ==> result is Ok,
        operation matches Operation::Generate { document, .. } ==> (json_bytes(document@) is Some
            ==> result is Ok),
        result matches Ok(wire) ==> protocol_of(operation) == Some(wire.protocol@),
        result matches Err(error) ==> error.send_state is NotSent,
{
    if let Ok(wire) = result {
        wired_as_asked(wire, operation);
    }
}

} // verus!
