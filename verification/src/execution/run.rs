//! How a request is executed: who carries it out is found, an account is chosen, the plugin prepares it,
//! and it acts only once somebody asks for its events.

use vstd::prelude::*;

use crate::account::LoadedCredential;
use crate::continuation::{InterpreterTarget, ProviderSessionState};
use crate::event::ProviderEvent;
use crate::execution::{
    interrupted, is_preparation, is_prepared_execution, is_target, known_transport, lacks_endpoint,
    opened, prepared, remaining, step_time, streams, Attempt, CallReply, Operation, PreparedAttempt,
    PreparedExecution, ProviderHttpHeader,
};
use crate::extensions::ExtensionCallScope;
use crate::fault::{
    bare_error, engine_error, protocol_error, unsent_error, ProviderError, ProviderErrorKind,
    RpcError, UpstreamSendState,
};
use crate::json::{Json, JsonView};
use crate::provider::PluginProvider;

verus! {

/// What is asked for.
pub struct ExecutionRequest {
    pub model: Option<String>,
    /// The checkpoint of the conversation that is carried on.
    pub state: Option<ProviderSessionState>,
    pub attempt: Attempt,
}

/// The checkpoint of the conversation, if one is carried on.
pub open spec fn state_of(request: &ExecutionRequest) -> Option<&ProviderSessionState> {
    match &request.state {
        Some(state) => Some(state),
        None => None,
    }
}

/// Where an execution is. `C` is what the protocol says of the request besides its body.
pub enum ExecutionPhase<C> {
    /// The process is looked for that reads the checkpoint.
    Resolving { operation: Operation<C> },
    /// An account is chosen.
    Selecting { operation: Operation<C> },
    /// The request goes through the other plugins.
    Processing { credential: LoadedCredential },
    /// The plugin prepares the execution.
    Preparing,
    /// The execution is prepared, and nobody has asked for its events.
    Waiting { prepared: PreparedExecution },
    /// The plugin is asked to execute.
    Opening,
    /// Events are passed on.
    Streaming,
    Ended,
}

/// What happened.
pub enum ExecutionEvent<C> {
    /// Whether the process that was found may carry the conversation on.
    Resolved(Result<(), ProviderError>),
    Selected(Result<LoadedCredential, ProviderError>),
    /// The request, as the other plugins leave it, with the headers that they add, and the time.
    Processed { operation: Operation<C>, headers: Vec<ProviderHttpHeader>, now: u128 },
    /// What came of asking the plugin to prepare; nothing where it could not be asked.
    Prepared(Option<CallReply<PreparedExecution>>),
    /// The first event is asked for, at this time.
    Polled { now: u128 },
    /// What came of asking the plugin to execute, and how far the execution has gone.
    Opened { reply: CallReply<Json>, state: UpstreamSendState },
    /// What the plugin reported, as it was read.
    Told(Result<ProviderEvent, ProviderError>),
    /// The plugin reports nothing more.
    Closed,
    /// The report broke off, and how far the execution had gone.
    Broken { fault: RpcError, state: UpstreamSendState },
}

/// What is done next.
pub enum ExecutionAction<C> {
    Resolve { owner: String },
    /// The process that was found executes the request.
    HandOver(Operation<C>),
    /// An account is chosen. The process that wrote the checkpoint is not needed any more.
    Select { superseded: Option<String> },
    /// The request goes through the other plugins.
    Process(Operation<C>),
    /// The plugin prepares the execution.
    Prepare(PreparedAttempt<C>),
    /// The events of the execution are offered.
    Offer,
    /// The execution that the plugin prepared is given up.
    GiveUp { token: String, error: ProviderError },
    /// The plugin may act from now on, and executes what it prepared, within so many nanoseconds.
    Execute { token: String, within: u128 },
    /// The next event is awaited.
    Await,
    Pass(ProviderEvent),
    Finish,
    Fail(ProviderError),
}

/// The execution of a request.
pub struct Execution<C> {
    pub request: ExecutionRequest,
    pub phase: ExecutionPhase<C>,
}

/// An event that can happen in a phase.
pub open spec fn can_happen<C>(phase: ExecutionPhase<C>, event: ExecutionEvent<C>) -> bool {
    match phase {
        ExecutionPhase::Resolving { .. } => event is Resolved,
        ExecutionPhase::Selecting { .. } => event is Selected,
        ExecutionPhase::Processing { .. } => event is Processed,
        ExecutionPhase::Preparing => event is Prepared,
        ExecutionPhase::Waiting { .. } => event is Polled,
        ExecutionPhase::Opening => event is Opened,
        ExecutionPhase::Streaming => event is Told || event is Closed || event is Broken,
        ExecutionPhase::Ended => false,
    }
}

/// The execution fails.
pub open spec fn fails<C>(
    phase: ExecutionPhase<C>,
    action: ExecutionAction<C>,
    error: ProviderError,
) -> bool {
    phase is Ended && action == ExecutionAction::<C>::Fail(error)
}

/// What follows when the plugin answered that was asked to prepare.
pub open spec fn after_prepared<C>(
    reply: Option<CallReply<PreparedExecution>>,
    phase: ExecutionPhase<C>,
    action: ExecutionAction<C>,
) -> bool {
    match reply {
        Some(CallReply::Failed(fault)) => fails(
            phase,
            action,
            engine_error(fault, UpstreamSendState::NotSent),
        ),
        Some(CallReply::Answered { result: Some(answer), payload }) if is_prepared_execution(
            answer,
            payload@,
        ) => if answer.is_transport {
            phase == (ExecutionPhase::<C>::Waiting { prepared: answer }) && action is Offer
        } else {
            phase is Ended && action == (ExecutionAction::<C>::GiveUp {
                token: answer.token,
                error: unsent_error(ProviderErrorKind::Protocol),
            })
        },
        _ => fails(phase, action, unsent_error(ProviderErrorKind::Protocol)),
    }
}

/// What follows when the plugin answered that was asked to execute.
pub open spec fn after_opened<C>(
    reply: CallReply<Json>,
    state: UpstreamSendState,
    phase: ExecutionPhase<C>,
    action: ExecutionAction<C>,
) -> bool {
    match reply {
        CallReply::Failed(fault) => fails(phase, action, engine_error(fault, state)),
        CallReply::Answered { result: Some(answer), payload } if payload@.len() == 0 && answer@
            == streams() => phase is Streaming && action is Await,
        _ => fails(phase, action, bare_error(ProviderErrorKind::Protocol, state)),
    }
}

/// What follows when the request has gone through the other plugins.
pub open spec fn after_processed<C>(
    ready: Result<PreparedAttempt<C>, ProviderError>,
    phase: ExecutionPhase<C>,
    action: ExecutionAction<C>,
) -> bool {
    match ready {
        Ok(attempt) => phase is Preparing && action == ExecutionAction::Prepare(attempt),
        Err(error) => fails(phase, action, error),
    }
}

/// What follows an event.
pub open spec fn follows<C>(
    provider: PluginProvider,
    request: ExecutionRequest,
    before: ExecutionPhase<C>,
    event: ExecutionEvent<C>,
    phase: ExecutionPhase<C>,
    action: ExecutionAction<C>,
) -> bool {
    match (before, event) {
        (ExecutionPhase::Resolving { operation }, ExecutionEvent::Resolved(found)) => match found {
            Ok(()) => phase is Ended && action == ExecutionAction::HandOver(operation),
            Err(error) => fails(phase, action, error),
        },
        (ExecutionPhase::Selecting { operation }, ExecutionEvent::Selected(selected)) => {
            match selected {
                Ok(credential) => phase == (ExecutionPhase::<C>::Processing { credential }) && action
                    == ExecutionAction::Process(operation),
                Err(error) => fails(phase, action, error),
            }
        },
        (
            ExecutionPhase::Processing { credential },
            ExecutionEvent::Processed { operation, headers, now },
        ) => {
            exists|ready: Result<PreparedAttempt<C>, ProviderError>|
                #[trigger] is_preparation(
                    provider,
                    operation,
                    request.model,
                    headers,
                    credential,
                    state_of(&request),
                    request.attempt,
                    now,
                    ready,
                ) && after_processed(ready, phase, action)
        },
        (ExecutionPhase::Preparing, ExecutionEvent::Prepared(reply)) => after_prepared(
            reply,
            phase,
            action,
        ),
        (ExecutionPhase::Waiting { prepared }, ExecutionEvent::Polled { now }) => {
            if request.attempt.deadline > now {
                phase is Opening && action == (ExecutionAction::<C>::Execute {
                    token: prepared.token,
                    within: step_time(request.attempt.deadline, now),
                })
            } else {
                fails(phase, action, unsent_error(ProviderErrorKind::Timeout))
            }
        },
        (ExecutionPhase::Opening, ExecutionEvent::Opened { reply, state }) => after_opened(
            reply,
            state,
            phase,
            action,
        ),
        (ExecutionPhase::Streaming, ExecutionEvent::Told(told)) => match told {
            Ok(event) => phase is Streaming && action == ExecutionAction::<C>::Pass(event),
            Err(error) => fails(phase, action, error),
        },
        (ExecutionPhase::Streaming, ExecutionEvent::Closed) => phase is Ended && action is Finish,
        (ExecutionPhase::Streaming, ExecutionEvent::Broken { fault, state }) => fails(
            phase,
            action,
            engine_error(fault, state),
        ),
        _ => false,
    }
}

/// How an execution begins, by who carries the conversation on.
pub open spec fn begins<C>(
    begun: Result<(Execution<C>, ExecutionAction<C>), ProviderError>,
    target: Result<InterpreterTarget, ProviderError>,
    request: ExecutionRequest,
    operation: Operation<C>,
) -> bool {
    match target {
        Err(error) => begun matches Err(fault) && fault == error,
        Ok(InterpreterTarget::Current { previous_owner }) => {
            &&& begun matches Ok(execution)
            &&& execution.0.request == request
            &&& execution.0.phase == (ExecutionPhase::Selecting { operation })
            &&& execution.1 == (ExecutionAction::<C>::Select { superseded: previous_owner })
        },
        Ok(InterpreterTarget::Retired { owner }) => {
            &&& begun matches Ok(execution)
            &&& execution.0.request == request
            &&& execution.0.phase == (ExecutionPhase::Resolving { operation })
            &&& execution.1 == (ExecutionAction::<C>::Resolve { owner })
        },
    }
}

/// Whether an execution is admitted, and how it begins then. A plugin does not execute requests that
/// its own calls led to.
pub open spec fn is_admitted<C>(
    provider: PluginProvider,
    scope: Set<Seq<char>>,
    operation: Operation<C>,
    request: ExecutionRequest,
    result: Result<(Execution<C>, ExecutionAction<C>), ProviderError>,
) -> bool {
    if scope.contains(provider.instance_id@) {
        result matches Err(error) && error == unsent_error(ProviderErrorKind::PermissionDenied)
    } else if lacks_endpoint(provider, operation) {
        result matches Err(error) && error == unsent_error(ProviderErrorKind::Unsupported)
    } else {
        exists|target: Result<InterpreterTarget, ProviderError>|
            #[trigger] is_target(provider.continuation, state_of(&request), target) && begins(
                result,
                target,
                request,
                operation,
            )
    }
}

impl<C> Execution<C> {
    /// An execution that is admitted begins with the choice of an account, or with the search for the
    /// process that reads its checkpoint.
    pub fn new(
        provider: &PluginProvider,
        scope: &ExtensionCallScope,
        operation: Operation<C>,
        request: ExecutionRequest,
    ) -> (result: Result<(Self, ExecutionAction<C>), ProviderError>)
        ensures
            is_admitted(*provider, scope@, operation, request, result),
    {
        let state = match &request.state {
            Some(state) => Some(state),
            None => None,
        };
        let target = provider.start_execution(scope, &operation, state);
        let ghost found = target;
        let result = match target {
            Err(error) => Err(error),
            Ok(InterpreterTarget::Current { previous_owner }) => Ok(
                (
                    Execution { request, phase: ExecutionPhase::Selecting { operation } },
                    ExecutionAction::Select { superseded: previous_owner },
                ),
            ),
            Ok(InterpreterTarget::Retired { owner }) => Ok(
                (
                    Execution { request, phase: ExecutionPhase::Resolving { operation } },
                    ExecutionAction::Resolve { owner },
                ),
            ),
        };
        assert(begins(result, found, request, operation));
        result
    }

    /// Takes in what happened, and says what is done next.
    pub fn step(self, provider: &PluginProvider, event: ExecutionEvent<C>) -> (next: (
        Self,
        ExecutionAction<C>,
    ))
        requires
            can_happen(self.phase, event),
        ensures
            next.0.request == self.request,
            follows(*provider, self.request, self.phase, event, next.0.phase, next.1),
    {
        let request = self.request;
        let (phase, action) = match (self.phase, event) {
            (ExecutionPhase::Resolving { operation }, ExecutionEvent::Resolved(found)) => match found {
                Ok(()) => (ExecutionPhase::Ended, ExecutionAction::HandOver(operation)),
                Err(error) => (ExecutionPhase::Ended, ExecutionAction::Fail(error)),
            },
            (ExecutionPhase::Selecting { operation }, ExecutionEvent::Selected(selected)) => {
                match selected {
                    Ok(credential) => (
                        ExecutionPhase::Processing { credential },
                        ExecutionAction::Process(operation),
                    ),
                    Err(error) => (ExecutionPhase::Ended, ExecutionAction::Fail(error)),
                }
            },
            (
                ExecutionPhase::Processing { credential },
                ExecutionEvent::Processed { operation, headers, now },
            ) => {
                let state = match &request.state {
                    Some(state) => Some(state),
                    None => None,
                };
                match provider.prepare_operation(
                    operation,
                    request.model.clone(),
                    headers,
                    &credential,
                    state,
                    &request.attempt,
                    now,
                ) {
                    Ok(attempt) => (ExecutionPhase::Preparing, ExecutionAction::Prepare(attempt)),
                    Err(error) => (ExecutionPhase::Ended, ExecutionAction::Fail(error)),
                }
            },
            (ExecutionPhase::Preparing, ExecutionEvent::Prepared(reply)) => ready(reply),
            (ExecutionPhase::Waiting { prepared }, ExecutionEvent::Polled { now }) => {
                match remaining(request.attempt.deadline, now) {
                    Ok(within) => (
                        ExecutionPhase::Opening,
                        ExecutionAction::Execute { token: prepared.token, within },
                    ),
                    Err(error) => (ExecutionPhase::Ended, ExecutionAction::Fail(error)),
                }
            },
            (ExecutionPhase::Opening, ExecutionEvent::Opened { reply, state }) => {
                match opened(reply, state) {
                    Ok(()) => (ExecutionPhase::Streaming, ExecutionAction::Await),
                    Err(error) => (ExecutionPhase::Ended, ExecutionAction::Fail(error)),
                }
            },
            (ExecutionPhase::Streaming, ExecutionEvent::Told(told)) => match told {
                Ok(event) => (ExecutionPhase::Streaming, ExecutionAction::Pass(event)),
                Err(error) => (ExecutionPhase::Ended, ExecutionAction::Fail(error)),
            },
            (ExecutionPhase::Streaming, ExecutionEvent::Closed) => (
                ExecutionPhase::Ended,
                ExecutionAction::Finish,
            ),
            (ExecutionPhase::Streaming, ExecutionEvent::Broken { fault, state }) => (
                ExecutionPhase::Ended,
                ExecutionAction::Fail(interrupted(fault, state)),
            ),
            _ => {
                assert(false);
                (ExecutionPhase::Ended, ExecutionAction::Fail(protocol_error()))
            },
        };
        (Execution { request, phase }, action)
    }
}

fn ready<C>(reply: Option<CallReply<PreparedExecution>>) -> (next: (
    ExecutionPhase<C>,
    ExecutionAction<C>,
))
    ensures
        after_prepared(reply, next.0, next.1),
{
    let answer = match reply {
        Some(reply) => match prepared(reply) {
            Ok(answer) => answer,
            Err(error) => return (ExecutionPhase::Ended, ExecutionAction::Fail(error)),
        },
        None => return (ExecutionPhase::Ended, ExecutionAction::Fail(protocol_error())),
    };
    match known_transport(&answer) {
        Ok(()) => (ExecutionPhase::Waiting { prepared: answer }, ExecutionAction::Offer),
        Err(error) => (
            ExecutionPhase::Ended,
            ExecutionAction::GiveUp { token: answer.token, error },
        ),
    }
}

/// An execution that was carried out up to some point, from the choice of its account.
pub open spec fn is_run<C>(
    provider: PluginProvider,
    request: ExecutionRequest,
    phases: Seq<ExecutionPhase<C>>,
    events: Seq<ExecutionEvent<C>>,
    actions: Seq<ExecutionAction<C>>,
) -> bool {
    &&& phases.len() == events.len() + 1
    &&& actions.len() == events.len()
    &&& phases[0] is Selecting
    &&& forall|i: int|
        0 <= i < events.len() ==> can_happen(phases[i], #[trigger] events[i]) && follows(
            provider,
            request,
            phases[i],
            events[i],
            phases[i + 1],
            actions[i],
        )
}

/// The place in a run that a phase has, and what led to it.
pub open spec fn is_placed<C>(phases: Seq<ExecutionPhase<C>>, n: int) -> bool {
    match phases[n] {
        ExecutionPhase::Resolving { .. } => false,
        ExecutionPhase::Selecting { .. } => n == 0,
        ExecutionPhase::Processing { .. } => n == 1,
        ExecutionPhase::Preparing => n == 2,
        ExecutionPhase::Waiting { .. } => n == 3,
        ExecutionPhase::Opening => n == 4,
        ExecutionPhase::Streaming => n >= 5,
        ExecutionPhase::Ended => n >= 1,
    }
}

proof fn lemma_placed<C>(
    provider: PluginProvider,
    request: ExecutionRequest,
    phases: Seq<ExecutionPhase<C>>,
    events: Seq<ExecutionEvent<C>>,
    actions: Seq<ExecutionAction<C>>,
    n: int,
)
    requires
        is_run(provider, request, phases, events, actions),
        0 <= n <= events.len(),
    ensures
        is_placed(phases, n),
        n < events.len() && n < 5 ==> (n == 0 ==> phases[n] is Selecting) && (n == 1 ==> phases[n]
            is Processing) && (n == 2 ==> phases[n] is Preparing) && (n == 3 ==> phases[n]
            is Waiting) && (n == 4 ==> phases[n] is Opening),
    decreases n,
{
    if n < events.len() {
        assert(can_happen(phases[n], events[n]));
    }
    if n > 0 {
        lemma_placed(provider, request, phases, events, actions, n - 1);
        assert(can_happen(phases[n - 1], events[n - 1]));
        assert(follows(
            provider,
            request,
            phases[n - 1],
            events[n - 1],
            phases[n],
            actions[n - 1],
        ));
    }
}

/// The plugin acts only once somebody asks for events, and executes what it prepared for this request:
/// the account is the one that was chosen, the token is the one that the plugin gave for it, the
/// transport is known, and time is left.
pub proof fn executed_as_prepared<C>(
    provider: PluginProvider,
    request: ExecutionRequest,
    phases: Seq<ExecutionPhase<C>>,
    events: Seq<ExecutionEvent<C>>,
    actions: Seq<ExecutionAction<C>>,
    n: int,
    token: String,
    within: u128,
)
    requires
        is_run(provider, request, phases, events, actions),
        0 <= n < events.len(),
        actions[n] == (ExecutionAction::<C>::Execute { token, within }),
    ensures
        n == 3,
        events[3] matches ExecutionEvent::Polled { now } && now < request.attempt.deadline && within
            == step_time(request.attempt.deadline, now),
        events[2] matches ExecutionEvent::Prepared(Some(CallReply::Answered {
            result: Some(answer),
            payload,
        })) && is_prepared_execution(answer, payload@) && answer.is_transport && answer.token
            == token,
        actions[1] matches ExecutionAction::Prepare(attempt) && (events[0]
            matches ExecutionEvent::Selected(Ok(credential)) && (events[1]
            matches ExecutionEvent::Processed { operation, headers, now } && is_preparation(
            provider,
            operation,
            request.model,
            headers,
            credential,
            state_of(&request),
            request.attempt,
            now,
            Ok(attempt),
        ))),
{
    lemma_placed(provider, request, phases, events, actions, n);
    assert(can_happen(phases[n], events[n]));
    assert(follows(provider, request, phases[n], events[n], phases[n + 1], actions[n]));
    assert(phases[n] is Waiting) by {
        if phases[n] is Processing {
            assert(actions[n] is Prepare || actions[n] is Fail);
        }
    }
    lemma_placed(provider, request, phases, events, actions, 0);
    lemma_placed(provider, request, phases, events, actions, 1);
    lemma_placed(provider, request, phases, events, actions, 2);
    assert(can_happen(phases[2], events[2]));
    assert(follows(provider, request, phases[2], events[2], phases[3], actions[2]));
    assert(can_happen(phases[1], events[1]));
    assert(follows(provider, request, phases[1], events[1], phases[2], actions[1]));
    assert(can_happen(phases[0], events[0]));
    assert(follows(provider, request, phases[0], events[0], phases[1], actions[0]));
}

/// An execution that the plugin prepared for an unknown transport is given up by its token, and is never
/// carried out.
pub proof fn unknown_transport_is_given_up<C>(
    provider: PluginProvider,
    request: ExecutionRequest,
    phases: Seq<ExecutionPhase<C>>,
    events: Seq<ExecutionEvent<C>>,
    actions: Seq<ExecutionAction<C>>,
    answer: PreparedExecution,
    payload: Vec<u8>,
    n: int,
)
    requires
        is_run(provider, request, phases, events, actions),
        0 <= n < events.len(),
        events[n] == ExecutionEvent::<C>::Prepared(
            Some(CallReply::Answered { result: Some(answer), payload }),
        ),
        is_prepared_execution(answer, payload@),
        !answer.is_transport,
    ensures
        actions[n] == (ExecutionAction::<C>::GiveUp {
            token: answer.token,
            error: unsent_error(ProviderErrorKind::Protocol),
        }),
        n == events.len() - 1,
        forall|i: int| 0 <= i < actions.len() ==> !(#[trigger] actions[i] is Execute),
{
    lemma_placed(provider, request, phases, events, actions, n);
    assert(can_happen(phases[n], events[n]));
    assert(follows(provider, request, phases[n], events[n], phases[n + 1], actions[n]));
    if n + 1 < events.len() {
        assert(can_happen(phases[n + 1], events[n + 1]));
    }
    assert forall|i: int| 0 <= i < actions.len() implies !(#[trigger] actions[i] is Execute) by {
        if actions[i] is Execute {
            executed_as_prepared(
                provider,
                request,
                phases,
                events,
                actions,
                i,
                actions[i]->Execute_token,
                actions[i]->within,
            );
        }
    }
}

/// What fails before the plugin is asked to execute fails as unsent, unless the choice of the account
/// failed or the plugin reports a failure itself: the request may be tried elsewhere.
pub proof fn nothing_is_sent_before<C>(
    provider: PluginProvider,
    request: ExecutionRequest,
    phases: Seq<ExecutionPhase<C>>,
    events: Seq<ExecutionEvent<C>>,
    actions: Seq<ExecutionAction<C>>,
    n: int,
    error: ProviderError,
)
    requires
        is_run(provider, request, phases, events, actions),
        0 < n < events.len(),
        actions[n] == ExecutionAction::<C>::Fail(error),
        !(events[n] is Opened) && !(events[n] is Told) && !(events[n] is Broken),
        events[n] matches ExecutionEvent::Prepared(reply) ==> !(reply matches Some(
            CallReply::Failed(_),
        )),
    ensures
        error.send_state == UpstreamSendState::NotSent,
{
    lemma_placed(provider, request, phases, events, actions, n);
    assert(can_happen(phases[n], events[n]));
    assert(follows(provider, request, phases[n], events[n], phases[n + 1], actions[n]));
}

/// A plugin that is already at work on a request does not execute another for it. A request that
/// carries no conversation on and asks for nothing that the provider lacks begins with the choice of
/// an account.
pub proof fn admitted_from_outside<C>(
    provider: PluginProvider,
    scope: Set<Seq<char>>,
    operation: Operation<C>,
    request: ExecutionRequest,
    result: Result<(Execution<C>, ExecutionAction<C>), ProviderError>,
)
    requires
        is_admitted(provider, scope, operation, request, result),
    ensures
        scope.contains(provider.instance_id@) ==> (result matches Err(error) && error.kind
            == ProviderErrorKind::PermissionDenied && error.send_state
            == UpstreamSendState::NotSent),
        !scope.contains(provider.instance_id@) && lacks_endpoint(provider, operation) ==> (result
            matches Err(error) && error.kind == ProviderErrorKind::Unsupported && error.send_state
            == UpstreamSendState::NotSent),
        !scope.contains(provider.instance_id@) && !lacks_endpoint(provider, operation)
            && request.state is None ==> {
            &&& result matches Ok(begun)
            &&& begun.0.request == request
            &&& begun.0.phase == (ExecutionPhase::Selecting { operation })
            &&& begun.1 == (ExecutionAction::<C>::Select { superseded: None })
        },
        result matches Ok(begun) ==> begun.0.request == request && (begun.1 is Select || begun.1
            is Resolve),
{
}

/// An execution goes on with each step that succeeds, and ends with the failure of the step that
/// fails. What the plugin reports is passed on as it was read, until it reports nothing more.
pub proof fn execution_goes_on<C>(
    provider: PluginProvider,
    request: ExecutionRequest,
    before: ExecutionPhase<C>,
    event: ExecutionEvent<C>,
    phase: ExecutionPhase<C>,
    action: ExecutionAction<C>,
)
    requires
        can_happen(before, event),
        follows(provider, request, before, event, phase, action),
    ensures
        phase is Ended <==> action is HandOver || action is GiveUp || action is Finish || action
            is Fail,
        event matches ExecutionEvent::Resolved(Err(error)) ==> action == ExecutionAction::<C>::Fail(
            error,
        ),
        event matches ExecutionEvent::Resolved(Ok(_)) ==> (before
            matches ExecutionPhase::Resolving { operation } && action == ExecutionAction::HandOver(
            operation,
        )),
        event matches ExecutionEvent::Selected(Err(error)) ==> action == ExecutionAction::<C>::Fail(
            error,
        ),
        event matches ExecutionEvent::Selected(Ok(credential)) ==> (before
            matches ExecutionPhase::Selecting { operation } && action == ExecutionAction::Process(
            operation,
        ) && phase == (ExecutionPhase::<C>::Processing { credential })),
        event is Processed ==> action is Prepare || action is Fail,
        event matches ExecutionEvent::Polled { now } ==> (request.attempt.deadline <= now ==> (action
            matches ExecutionAction::Fail(error) && error.kind == ProviderErrorKind::Timeout
            && error.send_state == UpstreamSendState::NotSent)),
        event matches ExecutionEvent::Polled { now } ==> (request.attempt.deadline > now ==> (before
            matches ExecutionPhase::Waiting { prepared } && (action
            matches ExecutionAction::Execute { token, within } && token == prepared.token && 0
            < within <= request.attempt.deadline - now))),
        event matches ExecutionEvent::Told(Ok(told)) ==> action == ExecutionAction::<C>::Pass(told)
            && phase is Streaming,
        event matches ExecutionEvent::Told(Err(error)) ==> action == ExecutionAction::<C>::Fail(
            error,
        ),
        event is Closed ==> action is Finish,
        event is Broken ==> action is Fail,
        event is Opened ==> action is Await || action is Fail,
{
}

/// An execution opens if and only if the plugin answers with nothing but that it streams. What fails
/// then fails as far as the execution had gone.
pub proof fn opened_by_the_answer<C>(
    reply: CallReply<Json>,
    state: UpstreamSendState,
    phase: ExecutionPhase<C>,
    action: ExecutionAction<C>,
)
    requires
        after_opened(reply, state, phase, action),
    ensures
        action is Await || action is Fail,
        action is Await <==> (reply matches CallReply::Answered { result: Some(answer), payload }
            && payload@.len() == 0 && (answer@ matches JsonView::Object(members) && members
            == Map::<Seq<char>, JsonView>::empty().insert("stream"@, JsonView::Bool(true)))),
        action is Await <==> phase is Streaming,
        reply is Answered ==> (action matches ExecutionAction::Fail(error) ==> error.kind
            == ProviderErrorKind::Protocol && error.send_state == state),
        reply matches CallReply::Failed(RpcError::Timeout) ==> (action
            matches ExecutionAction::Fail(error) && error.kind == ProviderErrorKind::Timeout
            && error.send_state == state),
{
}

/// An execution waits for whoever asks for its events if and only if the plugin answered with a token
/// of at most 256 bytes, with nothing besides, and with a transport that is known.
pub proof fn prepared_by_the_answer<C>(
    reply: Option<CallReply<PreparedExecution>>,
    phase: ExecutionPhase<C>,
    action: ExecutionAction<C>,
)
    requires
        after_prepared(reply, phase, action),
    ensures
        action is Offer <==> (reply matches Some(
            CallReply::Answered { result: Some(answer), payload },
        ) && payload@.len() == 0 && 0 < crate::text::byte_len(answer.token@) <= 256 && answer.is_transport),
        action is Offer <==> phase is Waiting,
        action is GiveUp ==> (reply matches Some(
            CallReply::Answered { result: Some(answer), .. },
        ) && !answer.is_transport),
        reply is None ==> (action matches ExecutionAction::Fail(error) && error.kind
            == ProviderErrorKind::Protocol && error.send_state == UpstreamSendState::NotSent),
        reply matches Some(CallReply::Failed(RpcError::Timeout)) ==> (action
            matches ExecutionAction::Fail(error) && error.kind == ProviderErrorKind::Timeout
            && error.send_state == UpstreamSendState::NotSent),
        reply matches Some(CallReply::Answered { payload, .. }) ==> (payload@.len() > 0 ==> (action
            matches ExecutionAction::Fail(error) && error.kind == ProviderErrorKind::Protocol)),
        action is Offer || action is GiveUp || action is Fail,
{
}

} // verus!
