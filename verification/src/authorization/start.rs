//! How a login is started: the plugin is asked where people are sent, what has to be remembered is kept,
//! and only then are they sent there.

use vstd::prelude::*;

use crate::account::LoadedCredential;
use crate::authorization::{
    begin_login, is_kept, is_started, keep_new_login, login_kept, login_started, pending_nanos,
    start_fault, start_of, AuthorizationMutationTarget, AuthorizationOwner, AuthorizationStarted,
    LoginStart, LoginStarted, PutReply, StoredLoginView, STORED_VERSION,
};
use crate::credential_form::CredentialInputs;
use crate::fault::{
    admin, unavailable, ProviderAdminError, ProviderAdminErrorKind, UpstreamSendState,
};
use crate::identifier::is_uuid;
use crate::json::{copy_members, members_view, Json};
use crate::management::{
    is_prepared_call, management_call, unusable, ManagementCall, ManagementOrigin,
    ProviderOperation,
};
use crate::manifest::CredentialOperation;
use crate::provider_ports::NewOAuthPendingFlow;

verus! {

/// What is asked for.
pub struct StartRequest {
    pub kind: String,
    /// What binds a login to the plugin as it is now.
    pub binding: String,
    pub owner: AuthorizationOwner,
    pub outbound_proxy: Option<String>,
    /// The request that the login belongs to, as it is remembered.
    pub mutation: Vec<(String, Json)>,
}

/// Where the start of a login is.
pub enum StartPhase {
    /// The credential of the account that is logged in again is read.
    LoadingCredential { start: LoginStart },
    /// The plugin is asked.
    Asking { start: LoginStart },
    /// What has to be remembered is kept.
    Storing { shown: AuthorizationStarted },
    Ended,
}

/// What happened.
pub enum StartEvent {
    CredentialLoaded(Result<LoadedCredential, ProviderAdminError>),
    /// What the plugin answered, how far the requests of the call went, and the time since then.
    Answered {
        answer: Result<LoginStarted, ProviderAdminError>,
        state: UpstreamSendState,
        now_nanos: i128,
    },
    Stored(PutReply),
}

/// What is done next.
pub enum StartAction {
    LoadCredential,
    /// The plugin is asked, by this call.
    Ask(ManagementCall),
    Store(NewOAuthPendingFlow),
    /// People are sent there.
    Send(AuthorizationStarted),
    Fail(ProviderAdminError),
}

/// The start of a login.
pub struct LoginStarting {
    pub request: StartRequest,
    pub phase: StartPhase,
}

/// An event that can happen in a phase.
pub open spec fn can_happen(phase: StartPhase, event: StartEvent) -> bool {
    match phase {
        StartPhase::LoadingCredential { .. } => event is CredentialLoaded,
        StartPhase::Asking { .. } => event is Answered,
        StartPhase::Storing { .. } => event is Stored,
        StartPhase::Ended => false,
    }
}

/// The start fails.
pub open spec fn fails(phase: StartPhase, action: StartAction, error: ProviderAdminError) -> bool {
    phase is Ended && action == StartAction::Fail(error)
}

/// What is kept of a login that was started, and where people are sent: to the address that the plugin
/// gave, under the name that the login is kept by.
pub open spec fn is_kept_start(
    request: StartRequest,
    started: LoginStarted,
    now_nanos: i128,
    flow: NewOAuthPendingFlow,
    shown: AuthorizationStarted,
) -> bool {
    &&& is_started(started, now_nanos as int)
    &&& is_uuid(shown.flow_id@)
    &&& shown.authorization_url@ == started.authorization_url@
    &&& shown.expires_at_ms == started.expires_at_ms
    &&& is_kept(
        flow,
        shown.flow_id@,
        request.kind@,
        request.owner,
        pending_nanos(started.expires_at_ms, now_nanos as int) as u128,
        StoredLoginView {
            version: STORED_VERSION,
            binding: request.binding@,
            expires_at_ms: started.expires_at_ms,
            mutation: members_view(request.mutation@),
            state: members_view(started.state@),
        },
    )
}

/// What follows an event.
pub open spec fn follows(
    request: StartRequest,
    before: StartPhase,
    event: StartEvent,
    phase: StartPhase,
    action: StartAction,
) -> bool {
    match (before, event) {
        (StartPhase::LoadingCredential { start }, StartEvent::CredentialLoaded(loaded)) => {
            match loaded {
                Ok(credential) => phase == (StartPhase::Asking { start }) && (action
                    matches StartAction::Ask(call) && is_prepared_call(
                    call,
                    ProviderOperation::Login,
                    Some(&credential.account),
                    request.outbound_proxy,
                    ManagementOrigin::Interactive,
                )),
                Err(error) => fails(phase, action, error),
            }
        },
        (StartPhase::Asking { .. }, StartEvent::Answered { answer, state, now_nanos }) => {
            match answer {
                Ok(started) => if is_started(started, now_nanos as int) {
                    &&& phase matches StartPhase::Storing { shown } && (action
                        matches StartAction::Store(flow) && is_kept_start(
                        request,
                        started,
                        now_nanos,
                        flow,
                        shown,
                    ))
                } else {
                    fails(phase, action, unusable(ProviderOperation::Login, state))
                },
                Err(error) => fails(phase, action, error),
            }
        },
        (StartPhase::Storing { shown }, StartEvent::Stored(reply)) => if reply == PutReply::Stored {
            phase is Ended && action == StartAction::Send(shown)
        } else {
            fails(phase, action, admin(ProviderAdminErrorKind::Unavailable))
        },
        _ => false,
    }
}

/// A call that a person asked for is made.
fn ask(start: LoginStart, credential: Option<&LoadedCredential>, outbound_proxy: Option<String>) -> (
    next: (StartPhase, StartAction))
    ensures
        next.0 == (StartPhase::Asking { start }),
        next.1 matches StartAction::Ask(call) && is_prepared_call(
            call,
            ProviderOperation::Login,
            match credential {
                Some(credential) => Some(&credential.account),
                None => None,
            },
            outbound_proxy,
            ManagementOrigin::Interactive,
        ),
{
    let account = match credential {
        Some(credential) => Some(&credential.account),
        None => None,
    };
    match management_call(ProviderOperation::Login, account, outbound_proxy) {
        Ok(call) => (StartPhase::Asking { start }, StartAction::Ask(call)),
        Err(error) => {
            assert(false);
            (StartPhase::Ended, StartAction::Fail(error))
        },
    }
}

impl LoginStarting {
    /// A login that the provider declares begins: the plugin is asked, once the credential is read of
    /// an account that is logged in again.
    pub fn new(
        operations: &Vec<CredentialOperation>,
        inputs: &CredentialInputs,
        provider: &str,
        target: &AuthorizationMutationTarget,
        input: Vec<(String, Json)>,
        request: StartRequest,
    ) -> (result: Result<(Self, StartAction), ProviderAdminError>)
        ensures
            begins(operations@, *inputs, provider@, *target, input, request, result),
    {
        let start = match begin_login(
            operations,
            inputs,
            provider,
            request.kind.as_str(),
            target,
            input,
        ) {
            Ok(start) => start,
            Err(error) => return Err(error),
        };
        let (phase, action) = match target {
            AuthorizationMutationTarget::Create { .. } => ask(
                start,
                None,
                request.outbound_proxy.clone(),
            ),
            AuthorizationMutationTarget::Reauthorize { .. } => (
                StartPhase::LoadingCredential { start },
                StartAction::LoadCredential,
            ),
        };
        Ok((LoginStarting { request, phase }, action))
    }

    /// Takes in what happened, and says what is done next.
    pub fn step(self, event: StartEvent) -> (next: (Self, StartAction))
        requires
            can_happen(self.phase, event),
        ensures
            next.0.request == self.request,
            follows(self.request, self.phase, event, next.0.phase, next.1),
    {
        let request = self.request;
        let (phase, action) = match (self.phase, event) {
            (StartPhase::LoadingCredential { start }, StartEvent::CredentialLoaded(loaded)) => {
                match loaded {
                    Ok(credential) => ask(start, Some(&credential), request.outbound_proxy.clone()),
                    Err(error) => (StartPhase::Ended, StartAction::Fail(error)),
                }
            },
            (StartPhase::Asking { .. }, StartEvent::Answered { answer, state, now_nanos }) => {
                match answer {
                    Ok(started) => answered(&request, started, state, now_nanos),
                    Err(error) => (StartPhase::Ended, StartAction::Fail(error)),
                }
            },
            (StartPhase::Storing { shown }, StartEvent::Stored(reply)) => match login_kept(reply) {
                Ok(()) => (StartPhase::Ended, StartAction::Send(shown)),
                Err(error) => (StartPhase::Ended, StartAction::Fail(error)),
            },
            _ => {
                assert(false);
                (StartPhase::Ended, StartAction::Fail(unavailable()))
            },
        };
        (LoginStarting { request, phase }, action)
    }
}

fn answered(
    request: &StartRequest,
    started: LoginStarted,
    state: UpstreamSendState,
    now_nanos: i128,
) -> (next: (StartPhase, StartAction))
    ensures
        if is_started(started, now_nanos as int) {
            &&& next.0 matches StartPhase::Storing { shown } && (next.1
                matches StartAction::Store(flow) && is_kept_start(
                *request,
                started,
                now_nanos,
                flow,
                shown,
            ))
        } else {
            fails(next.0, next.1, unusable(ProviderOperation::Login, state))
        },
{
    let ttl_nanos = match login_started(state, &started, now_nanos) {
        Ok(ttl_nanos) => ttl_nanos,
        Err(error) => return (StartPhase::Ended, StartAction::Fail(error)),
    };
    match keep_new_login(
        request.kind.as_str(),
        request.binding.as_str(),
        &request.owner,
        ttl_nanos,
        copy_members(&request.mutation),
        started,
    ) {
        Ok((flow, shown)) => (StartPhase::Storing { shown }, StartAction::Store(flow)),
        Err(error) => {
            assert(false);
            (StartPhase::Ended, StartAction::Fail(error))
        },
    }
}

/// A start that was carried out up to some point.
pub open spec fn is_run(
    request: StartRequest,
    phases: Seq<StartPhase>,
    events: Seq<StartEvent>,
    actions: Seq<StartAction>,
) -> bool {
    &&& phases.len() == events.len() + 1
    &&& actions.len() == events.len()
    &&& phases[0] is LoadingCredential || phases[0] is Asking
    &&& forall|i: int|
        0 <= i < events.len() ==> can_happen(phases[i], #[trigger] events[i]) && follows(
            request,
            phases[i],
            events[i],
            phases[i + 1],
            actions[i],
        )
}

/// People are sent to log in only where the login was kept: for whoever asked, bound to the plugin as
/// it is, with what the plugin wants remembered, and to the address that the plugin gave.
pub proof fn sent_only_where_kept(
    request: StartRequest,
    phases: Seq<StartPhase>,
    events: Seq<StartEvent>,
    actions: Seq<StartAction>,
    shown: AuthorizationStarted,
)
    requires
        is_run(request, phases, events, actions),
        events.len() > 0,
        actions.last() == StartAction::Send(shown),
    ensures
        events.last() == StartEvent::Stored(PutReply::Stored),
        events.len() > 1,
        actions[events.len() - 2] matches StartAction::Store(flow) && (events[events.len() - 2]
            matches StartEvent::Answered { answer: Ok(started), now_nanos, .. } && is_kept_start(
            request,
            started,
            now_nanos,
            flow,
            shown,
        )),
{
    let n = events.len() - 1;
    assert(can_happen(phases[n], events[n]));
    assert(follows(request, phases[n], events[n], phases[n + 1], actions[n]));
    assert(phases[n] is Storing);
    assert(can_happen(phases[n - 1], events[n - 1]));
    assert(follows(request, phases[n - 1], events[n - 1], phases[n], actions[n - 1]));
}

/// The start of a login goes on as it should: the plugin is asked for the account whose credential was
/// read, through the proxy of the request; its answer is kept if it can be used, and people are sent
/// there once it is kept. Whatever goes wrong ends it.
pub proof fn starts_go_on(
    request: StartRequest,
    before: StartPhase,
    event: StartEvent,
    phase: StartPhase,
    action: StartAction,
)
    requires
        follows(request, before, event, phase, action),
    ensures
        event matches StartEvent::CredentialLoaded(Err(error)) ==> action == StartAction::Fail(error),
        event matches StartEvent::CredentialLoaded(Ok(credential)) ==> (action
            matches StartAction::Ask(call) && call.operation is Login && call.context.account_id
            is Some && call.context.account_id->0@ == credential.account.id@
            && call.context.credential_revision == Some(credential.account.revision)
            && call.scope.proxy == request.outbound_proxy && call.context.stage is Management),
        event matches StartEvent::Answered { answer: Err(error), state, now_nanos } ==> action
            == StartAction::Fail(error),
        event matches StartEvent::Answered { answer: Ok(started), state, now_nanos } ==> (
        !is_started(started, now_nanos as int) ==> (action matches StartAction::Fail(error) && (
        error.kind is Ambiguous <==> !(state is NotSent)))),
        event matches StartEvent::Answered { answer: Ok(started), state, now_nanos } ==> (
        is_started(started, now_nanos as int) ==> (action matches StartAction::Store(flow)
            && flow.provider@ == request.kind@ && flow.owner@ == crate::authorization::owner_text(
            request.owner,
        ) && now_nanos + flow.ttl_nanos == started.expires_at_ms * 1_000_000 && (phase
            matches StartPhase::Storing { shown } && shown.flow_id@ == flow.flow@
            && shown.authorization_url@ == started.authorization_url@ && shown.expires_at_ms
            == started.expires_at_ms))),
        event matches StartEvent::Stored(reply) ==> (reply is Stored <==> action is Send),
        event matches StartEvent::Stored(reply) ==> (before matches StartPhase::Storing { shown } && (
        reply is Stored ==> action == StartAction::Send(shown)) && (!(reply is Stored) ==> (action
            matches StartAction::Fail(error) && error.kind is Unavailable))),
        action is Fail || action is Send <==> phase is Ended,
{
}

/// How a login begins.
pub open spec fn begins(
    operations: Seq<CredentialOperation>,
    inputs: CredentialInputs,
    provider: Seq<char>,
    target: AuthorizationMutationTarget,
    input: Vec<(String, Json)>,
    request: StartRequest,
    result: Result<(LoginStarting, StartAction), ProviderAdminError>,
) -> bool {
    match start_fault(operations, inputs, provider, request.kind@, input) {
        Some(fault) => result matches Err(error) && error == admin(fault),
        None => {
            &&& result matches Ok(begun)
            &&& begun.0.request == request
            &&& match target {
                AuthorizationMutationTarget::Create { .. } => {
                    &&& begun.0.phase == (StartPhase::Asking { start: start_of(target, input) })
                    &&& begun.1 matches StartAction::Ask(call) && is_prepared_call(
                        call,
                        ProviderOperation::Login,
                        None,
                        request.outbound_proxy,
                        ManagementOrigin::Interactive,
                    )
                },
                AuthorizationMutationTarget::Reauthorize { .. } => {
                    &&& begun.0.phase == (StartPhase::LoadingCredential {
                        start: start_of(target, input),
                    })
                    &&& begun.1 is LoadCredential
                },
            }
        },
    }
}

/// A login for a new account asks the plugin at once, about no account; one that renews an account reads
/// the account's credential first. Neither begins unless the plugin offers logins and the input fits.
pub proof fn begun_by_target(
    operations: Seq<CredentialOperation>,
    inputs: CredentialInputs,
    provider: Seq<char>,
    target: AuthorizationMutationTarget,
    input: Vec<(String, Json)>,
    request: StartRequest,
    result: Result<(LoginStarting, StartAction), ProviderAdminError>,
)
    requires
        begins(operations, inputs, provider, target, input, request, result),
    ensures
        result is Ok ==> operations.contains(CredentialOperation::Login) && provider
            == request.kind@,
        !operations.contains(CredentialOperation::Login) || provider != request.kind@ ==> result
            is Err,
        result matches Ok(begun) ==> {
            &&& begun.0.request == request
            &&& (begun.1 is LoadCredential <==> target is Reauthorize)
            &&& (target is Create ==> (begun.1 matches StartAction::Ask(call) && call.operation
                is Login && call.context.account_id is None && call.scope.proxy
                == request.outbound_proxy))
            &&& (target matches AuthorizationMutationTarget::Reauthorize { account_id } ==> (
            begun.0.phase matches StartPhase::LoadingCredential { start } && start.account_id == Some(
                account_id,
            ) && start.input == input))
            &&& (target matches AuthorizationMutationTarget::Create { name } ==> (begun.0.phase
                matches StartPhase::Asking { start } && start.name == Some(name) && start.account_id
                is None && start.input == input))
        },
{
    crate::authorization::starts_in_order(operations, inputs, provider, request.kind@, input);
    crate::authorization::started_with_its_target(target, input);
    if let Ok(begun) = result {
        if let StartAction::Ask(call) = begun.1 {
            crate::management::prepared_calls(
                call,
                ProviderOperation::Login,
                None,
                request.outbound_proxy,
                ManagementOrigin::Interactive,
            );
        }
    }
}

} // verus!
