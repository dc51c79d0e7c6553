//! How a login is asked after: it is held, read, and the plugin is asked; unless it is complete it is let
//! go again.

use vstd::prelude::*;

use crate::account::{CredentialFacts, LoadedCredential};
use crate::authorization::{
    begin_poll, check_pending, claimed, is_open, is_poll_answer, login_fault, new_claim, open_login,
    owner_text, poll_answered, read_stored, released, AuthorizationMutationTarget,
    AuthorizationOwner, Claim, ClaimReply, LoginPollResult, PendingMutation, PollStep, ReleaseReply,
    StoredLogin, MAX_CALLBACK_BYTES,
};
use crate::credentials::{
    can_be_created, is_account_name, is_created, take_created, PreparedCredentialCreate,
};
use crate::fault::{
    admin, unavailable, ProviderAdminError, ProviderAdminErrorKind, UpstreamSendState,
};
use crate::identifier::is_uuid;
use crate::json::{members_view, JsonView};
use crate::management::{
    is_prepared_call, management_call, unusable, ManagementCall, ManagementOrigin,
    ProviderOperation,
};
use crate::manifest::CredentialOperation;
use crate::rotation::lock::{self, LockAction, LockEvent, LockPhase};
use crate::rotation::{
    is_replacement, may_replace, take_changed, CredentialChange, PreparedCredentialRotation,
};
use crate::text::byte_len;

verus! {

/// Which plugin a login is asked after with.
pub struct PollRequest {
    pub kind: String,
    /// What binds a login to the plugin as it is now.
    pub binding: String,
}

/// The request that a login belongs to, as it was read from what is remembered.
pub struct PendingLogin {
    pub pending: PendingMutation,
    pub target: AuthorizationMutationTarget,
    pub outbound_proxy: Option<String>,
}

/// What a login gave.
pub enum LoginOutcome {
    /// Accounts are created.
    Create(Vec<PreparedCredentialCreate>),
    /// A credential is replaced. The leases on it are held until it is saved.
    Reauthorize(PreparedCredentialRotation),
}

/// Where the question is.
pub enum PollPhase {
    /// The login is taken hold of.
    Claiming,
    /// The request that it belongs to is read.
    ReadingRequest { stored: StoredLogin },
    /// The credential that is replaced is locked.
    Locking {
        stored: StoredLogin,
        account_id: String,
        outbound_proxy: Option<String>,
        lock: LockPhase,
    },
    /// The plugin is asked.
    Asking {
        stored: StoredLogin,
        locked: Option<LoadedCredential>,
        outbound_proxy: Option<String>,
    },
    /// The login is let go, and then it is told what came of it: how long to wait, or what failed.
    Releasing { told: Result<u64, ProviderAdminError> },
    Ended,
}

/// What happened.
pub enum PollEvent {
    /// What came of taking hold of the login, and the time.
    Claimed { reply: ClaimReply, now_ms: i64 },
    /// Nothing where what is remembered stands for no request.
    RequestRead(Option<PendingLogin>),
    Lock(LockEvent),
    /// What the plugin answered, how far the requests of the call went, and the time since then.
    Answered {
        answer: Result<LoginPollResult, ProviderAdminError>,
        state: UpstreamSendState,
        now_ms: i64,
    },
    Released(ReleaseReply),
}

/// What is done next.
pub enum PollAction {
    /// The login is taken hold of, by this claim.
    Claim(Claim),
    ReadRequest,
    Lock(LockAction),
    /// The plugin is asked, by this call.
    Ask(ManagementCall),
    Release,
    /// People have to wait.
    Wait { retry_after_ms: u64 },
    /// The login is complete; it is held until its result is saved.
    Complete(LoginOutcome),
    Fail(ProviderAdminError),
}

/// A question after a login.
pub struct LoginPolling {
    pub request: PollRequest,
    pub phase: PollPhase,
}

/// An event that can happen in a phase.
pub open spec fn can_happen(phase: PollPhase, event: PollEvent) -> bool {
    match phase {
        PollPhase::Claiming => event is Claimed,
        PollPhase::ReadingRequest { .. } => event is RequestRead,
        PollPhase::Locking { lock, .. } => event matches PollEvent::Lock(happened)
            && lock::can_happen(lock, happened),
        PollPhase::Asking { .. } => event is Answered,
        PollPhase::Releasing { .. } => event is Released,
        PollPhase::Ended => false,
    }
}

/// The question fails.
pub open spec fn fails(phase: PollPhase, action: PollAction, error: ProviderAdminError) -> bool {
    phase is Ended && action == PollAction::Fail(error)
}

/// The login is let go before it is told what came of it.
pub open spec fn releases(
    phase: PollPhase,
    action: PollAction,
    told: Result<u64, ProviderAdminError>,
) -> bool {
    phase == (PollPhase::Releasing { told }) && action is Release
}

/// What is wrong with the request that a login belongs to.
pub open spec fn pending_fault(
    pending: Option<PendingLogin>,
    operations: Seq<CredentialOperation>,
    kind: Seq<char>,
) -> Option<ProviderAdminErrorKind> {
    match pending {
        Some(login) if login.pending.owner_matches => login_fault(
            operations,
            login.pending.provider@,
            kind,
        ),
        _ => Some(ProviderAdminErrorKind::Invalid),
    }
}

/// The plugin is asked about a login, and about an account where one is logged in again.
pub open spec fn asks(
    stored: StoredLogin,
    locked: Option<LoadedCredential>,
    outbound_proxy: Option<String>,
    phase: PollPhase,
    action: PollAction,
) -> bool {
    &&& phase == (PollPhase::Asking { stored, locked, outbound_proxy })
    &&& action matches PollAction::Ask(call) && is_prepared_call(
        call,
        ProviderOperation::Login,
        match locked {
            Some(credential) => Some(&credential.account),
            None => None,
        },
        outbound_proxy,
        ManagementOrigin::Interactive,
    )
}

/// What follows a step of the lock.
pub open spec fn after_lock(
    stored: StoredLogin,
    account_id: String,
    outbound_proxy: Option<String>,
    lock: LockPhase,
    next: LockAction,
    phase: PollPhase,
    action: PollAction,
) -> bool {
    match next {
        LockAction::Hold(credential) => asks(
            stored,
            Some(credential),
            outbound_proxy,
            phase,
            action,
        ),
        LockAction::Fail(error) => releases(phase, action, Err(error)),
        _ => phase == (PollPhase::Locking { stored, account_id, outbound_proxy, lock }) && action
            == PollAction::Lock(next),
    }
}

/// The accounts that a login gave are created.
pub open spec fn are_created(
    created: Seq<PreparedCredentialCreate>,
    accounts: Seq<CredentialFacts>,
    kind: Seq<char>,
    outbound_proxy: Option<String>,
    now_ms: i64,
) -> bool {
    created.len() == accounts.len() && forall|i: int|
        0 <= i < created.len() ==> is_created(
            #[trigger] created[i],
            accounts[i],
            kind,
            outbound_proxy,
            now_ms,
        ) && is_account_name(created[i].account_id@)
}

/// What follows when the plugin answered that a login is complete.
pub open spec fn after_complete(
    request: PollRequest,
    locked: Option<LoadedCredential>,
    outbound_proxy: Option<String>,
    accounts: Seq<CredentialFacts>,
    state: UpstreamSendState,
    now_ms: i64,
    phase: PollPhase,
    action: PollAction,
) -> bool {
    let unusable_answer = unusable(ProviderOperation::Login, state);
    match locked {
        Some(current) => if may_replace(
            current.account,
            accounts[0],
            CredentialChange::Reauthorize,
        ) {
            phase is Ended && (action matches PollAction::Complete(
                LoginOutcome::Reauthorize(prepared),
            ) && is_replacement(
                prepared,
                current.account,
                accounts[0],
                CredentialChange::Reauthorize,
                request.kind@,
            ))
        } else {
            releases(phase, action, Err(unusable_answer))
        },
        None => if can_be_created(accounts) {
            phase is Ended && (action matches PollAction::Complete(LoginOutcome::Create(created))
                && are_created(created@, accounts, request.kind@, outbound_proxy, now_ms))
        } else {
            releases(phase, action, Err(unusable_answer))
        },
    }
}

/// What follows when the plugin answered.
pub open spec fn after_answered(
    request: PollRequest,
    stored: StoredLogin,
    locked: Option<LoadedCredential>,
    outbound_proxy: Option<String>,
    reply: LoginPollResult,
    state: UpstreamSendState,
    now_ms: i64,
    phase: PollPhase,
    action: PollAction,
) -> bool {
    if !is_poll_answer(reply, stored.expires_at_ms, now_ms, locked is Some) {
        releases(phase, action, Err(unusable(ProviderOperation::Login, state)))
    } else {
        match reply {
            LoginPollResult::Pending { retry_after_ms } => releases(
                phase,
                action,
                Ok(retry_after_ms),
            ),
            LoginPollResult::Complete { accounts } => after_complete(
                request,
                locked,
                outbound_proxy,
                accounts@,
                state,
                now_ms,
                phase,
                action,
            ),
        }
    }
}

/// What follows when the login was taken hold of, or was not.
pub open spec fn after_claimed(
    request: PollRequest,
    reply: ClaimReply,
    now_ms: i64,
    phase: PollPhase,
    action: PollAction,
) -> bool {
    match reply {
        ClaimReply::Claimed(payload) => match read_stored(
            JsonView::Object(members_view(payload@)),
        ) {
            Some(found) if is_open(found, request.binding@, now_ms) => {
                &&& phase matches PollPhase::ReadingRequest { stored } && stored@ == found
                &&& action is ReadRequest
            },
            _ => releases(phase, action, Err(admin(ProviderAdminErrorKind::Invalid))),
        },
        ClaimReply::NotFound => fails(phase, action, admin(ProviderAdminErrorKind::NotFound)),
        ClaimReply::OwnerMismatch => fails(phase, action, admin(ProviderAdminErrorKind::Invalid)),
        ClaimReply::InProgress => fails(phase, action, admin(ProviderAdminErrorKind::Conflict)),
        ClaimReply::Failed => fails(phase, action, admin(ProviderAdminErrorKind::Unavailable)),
    }
}

/// What follows an event.
pub open spec fn follows(
    request: PollRequest,
    operations: Seq<CredentialOperation>,
    before: PollPhase,
    event: PollEvent,
    phase: PollPhase,
    action: PollAction,
) -> bool {
    match (before, event) {
        (PollPhase::Claiming, PollEvent::Claimed { reply, now_ms }) => after_claimed(
            request,
            reply,
            now_ms,
            phase,
            action,
        ),
        (PollPhase::ReadingRequest { stored }, PollEvent::RequestRead(pending)) => {
            match pending_fault(pending, operations, request.kind@) {
                Some(fault) => releases(phase, action, Err(admin(fault))),
                None => match pending->0.target {
                    AuthorizationMutationTarget::Create { .. } => asks(
                        stored,
                        None,
                        pending->0.outbound_proxy,
                        phase,
                        action,
                    ),
                    AuthorizationMutationTarget::Reauthorize { account_id } => phase == (
                    PollPhase::Locking {
                        stored,
                        account_id,
                        outbound_proxy: pending->0.outbound_proxy,
                        lock: LockPhase::Loading,
                    }) && action == PollAction::Lock(LockAction::Load),
                },
            }
        },
        (
            PollPhase::Locking { stored, account_id, outbound_proxy, lock },
            PollEvent::Lock(happened),
        ) => {
            exists|after: LockPhase, next: LockAction|
                #[trigger] lock::follows(lock, happened, after, next) && after_lock(
                    stored,
                    account_id,
                    outbound_proxy,
                    after,
                    next,
                    phase,
                    action,
                )
        },
        (
            PollPhase::Asking { stored, locked, outbound_proxy },
            PollEvent::Answered { answer, state, now_ms },
        ) => match answer {
            Err(error) => releases(phase, action, Err(error)),
            Ok(reply) => after_answered(
                request,
                stored,
                locked,
                outbound_proxy,
                reply,
                state,
                now_ms,
                phase,
                action,
            ),
        },
        (PollPhase::Releasing { told }, PollEvent::Released(reply)) => if reply
            == ReleaseReply::Failed {
            fails(phase, action, admin(ProviderAdminErrorKind::Unavailable))
        } else {
            match told {
                Ok(retry_after_ms) => phase is Ended && action == (PollAction::Wait {
                    retry_after_ms,
                }),
                Err(error) => fails(phase, action, error),
            }
        },
        _ => false,
    }
}

fn let_go(told: Result<u64, ProviderAdminError>) -> (next: (PollPhase, PollAction))
    ensures
        releases(next.0, next.1, told),
{
    (PollPhase::Releasing { told }, PollAction::Release)
}

fn ask(stored: StoredLogin, locked: Option<LoadedCredential>, outbound_proxy: Option<String>) -> (
    next: (PollPhase, PollAction))
    ensures
        asks(stored, locked, outbound_proxy, next.0, next.1),
{
    let made = {
        let account = match &locked {
            Some(credential) => Some(&credential.account),
            None => None,
        };
        management_call(ProviderOperation::Login, account, outbound_proxy.clone())
    };
    match made {
        Ok(call) => (
            PollPhase::Asking { stored, locked, outbound_proxy },
            PollAction::Ask(call),
        ),
        Err(error) => {
            assert(false);
            (PollPhase::Ended, PollAction::Fail(error))
        },
    }
}

fn answered(
    request: &PollRequest,
    stored: StoredLogin,
    locked: Option<LoadedCredential>,
    outbound_proxy: Option<String>,
    reply: LoginPollResult,
    state: UpstreamSendState,
    now_ms: i64,
) -> (next: (PollPhase, PollAction))
    ensures
        after_answered(
            *request,
            stored,
            locked,
            outbound_proxy,
            reply,
            state,
            now_ms,
            next.0,
            next.1,
        ),
{
    let found = match poll_answered(state, reply, stored.expires_at_ms, now_ms, locked.is_some()) {
        Ok(found) => found,
        Err(error) => return let_go(Err(error)),
    };
    match found {
        PollStep::Pending { retry_after_ms } => let_go(Ok(retry_after_ms)),
        PollStep::Create(accounts) => match take_created(
            ProviderOperation::Login,
            state,
            accounts,
            request.kind.as_str(),
            &outbound_proxy,
            now_ms,
        ) {
            Ok(created) => (
                PollPhase::Ended,
                PollAction::Complete(LoginOutcome::Create(created)),
            ),
            Err(error) => let_go(Err(error)),
        },
        PollStep::Replace(facts) => match locked {
            Some(current) => match take_changed(
                ProviderOperation::Login,
                state,
                &current.account,
                facts,
                CredentialChange::Reauthorize,
                request.kind.as_str(),
            ) {
                Ok(prepared) => (
                    PollPhase::Ended,
                    PollAction::Complete(LoginOutcome::Reauthorize(prepared)),
                ),
                Err(error) => let_go(Err(error)),
            },
            None => {
                assert(false);
                let_go(Err(unavailable()))
            },
        },
    }
}

impl LoginPolling {
    /// A login that may be asked after is taken hold of first, by a claim with a new token.
    pub fn new(
        operations: &Vec<CredentialOperation>,
        callback_url: &Option<String>,
        flow_id: &str,
        owner: &AuthorizationOwner,
        request: PollRequest,
    ) -> (result: Result<(Self, PollAction), ProviderAdminError>)
        ensures
            begins(operations@, *callback_url, flow_id@, *owner, request, result),
    {
        match begin_poll(operations, callback_url) {
            Ok(()) => {},
            Err(error) => return Err(error),
        }
        match new_claim(flow_id, owner) {
            Ok(claim) => Ok(
                (
                    LoginPolling { request, phase: PollPhase::Claiming },
                    PollAction::Claim(claim),
                ),
            ),
            Err(error) => Err(error),
        }
    }

    /// Takes in what happened, and says what is done next.
    pub fn step(self, operations: &Vec<CredentialOperation>, event: PollEvent) -> (next: (
        Self,
        PollAction,
    ))
        requires
            can_happen(self.phase, event),
        ensures
            next.0.request == self.request,
            follows(self.request, operations@, self.phase, event, next.0.phase, next.1),
    {
        let request = self.request;
        let (phase, action) = match (self.phase, event) {
            (PollPhase::Claiming, PollEvent::Claimed { reply, now_ms }) => match claimed(reply) {
                Ok(payload) => match open_login(payload, request.binding.as_str(), now_ms) {
                    Ok(stored) => (
                        PollPhase::ReadingRequest { stored },
                        PollAction::ReadRequest,
                    ),
                    Err(error) => let_go(Err(error)),
                },
                Err(error) => (PollPhase::Ended, PollAction::Fail(error)),
            },
            (PollPhase::ReadingRequest { stored }, PollEvent::RequestRead(pending)) => {
                read(&request, operations, stored, pending)
            },
            (
                PollPhase::Locking { stored, account_id, outbound_proxy, lock },
                PollEvent::Lock(happened),
            ) => {
                let (after, next) = lock::step(lock, happened);
                assert(lock::follows(lock, happened, after, next));
                match next {
                    LockAction::Hold(credential) => ask(stored, Some(credential), outbound_proxy),
                    LockAction::Fail(error) => let_go(Err(error)),
                    next => (
                        PollPhase::Locking { stored, account_id, outbound_proxy, lock: after },
                        PollAction::Lock(next),
                    ),
                }
            },
            (
                PollPhase::Asking { stored, locked, outbound_proxy },
                PollEvent::Answered { answer, state, now_ms },
            ) => match answer {
                Ok(reply) => answered(
                    &request,
                    stored,
                    locked,
                    outbound_proxy,
                    reply,
                    state,
                    now_ms,
                ),
                Err(error) => let_go(Err(error)),
            },
            (PollPhase::Releasing { told }, PollEvent::Released(reply)) => match released(reply) {
                Ok(()) => match told {
                    Ok(retry_after_ms) => (
                        PollPhase::Ended,
                        PollAction::Wait { retry_after_ms },
                    ),
                    Err(error) => (PollPhase::Ended, PollAction::Fail(error)),
                },
                Err(_) => (PollPhase::Ended, PollAction::Fail(unavailable())),
            },
            _ => {
                assert(false);
                (PollPhase::Ended, PollAction::Fail(unavailable()))
            },
        };
        (LoginPolling { request, phase }, action)
    }
}

fn read(
    request: &PollRequest,
    operations: &Vec<CredentialOperation>,
    stored: StoredLogin,
    pending: Option<PendingLogin>,
) -> (next: (PollPhase, PollAction))
    ensures
        follows(
            *request,
            operations@,
            PollPhase::ReadingRequest { stored },
            PollEvent::RequestRead(pending),
            next.0,
            next.1,
        ),
{
    let checked = match &pending {
        Some(login) => check_pending(Some(&login.pending), operations, request.kind.as_str()),
        None => check_pending(None, operations, request.kind.as_str()),
    };
    match checked {
        Ok(()) => {},
        Err(error) => return let_go(Err(error)),
    }
    match pending {
        Some(login) => match login.target {
            AuthorizationMutationTarget::Create { .. } => ask(stored, None, login.outbound_proxy),
            AuthorizationMutationTarget::Reauthorize { account_id } => {
                let (lock, action) = lock::start();
                (
                    PollPhase::Locking {
                        stored,
                        account_id,
                        outbound_proxy: login.outbound_proxy,
                        lock,
                    },
                    PollAction::Lock(action),
                )
            },
        },
        None => {
            assert(false);
            let_go(Err(unavailable()))
        },
    }
}

/// A question that was carried out up to some point, from its beginning.
pub open spec fn is_run(
    request: PollRequest,
    operations: Seq<CredentialOperation>,
    phases: Seq<PollPhase>,
    events: Seq<PollEvent>,
    actions: Seq<PollAction>,
) -> bool {
    &&& phases.len() == events.len() + 1
    &&& actions.len() == events.len()
    &&& phases[0] is Claiming
    &&& forall|i: int|
        0 <= i < events.len() ==> can_happen(phases[i], #[trigger] events[i]) && follows(
            request,
            operations,
            phases[i],
            events[i],
            phases[i + 1],
            actions[i],
        )
}

/// The login was taken hold of.
pub open spec fn is_held(events: Seq<PollEvent>) -> bool {
    events.len() > 0 && (events[0] matches PollEvent::Claimed {
        reply: ClaimReply::Claimed(_),
        ..
    })
}

/// Where a question is tells what it went through: it is at the beginning exactly when nothing has
/// happened, the login is let go only right before the end, and where it was let go there was a hold on
/// it.
proof fn lemma_course(
    request: PollRequest,
    operations: Seq<CredentialOperation>,
    phases: Seq<PollPhase>,
    events: Seq<PollEvent>,
    actions: Seq<PollAction>,
    n: int,
)
    requires
        is_run(request, operations, phases, events, actions),
        0 < n <= events.len(),
    ensures
        !(phases[n] is Claiming),
        phases[n] is Releasing <==> actions[n - 1] is Release,
        !(phases[n] is Ended) ==> is_held(events),
        phases[n] is Ended ==> n == events.len(),
        n > 1 ==> !(phases[n - 1] is Claiming),
        phases[n] is Ended && n > 1 ==> is_held(events),
    decreases n,
{
    let before = phases[n - 1];
    let event = events[n - 1];
    assert(can_happen(before, event));
    assert(follows(request, operations, before, event, phases[n], actions[n - 1]));
    if n < events.len() {
        assert(can_happen(phases[n], events[n]));
    }
    match (before, event) {
        (PollPhase::Locking { stored, account_id, outbound_proxy, lock }, PollEvent::Lock(happened)) => {
            let (after, next) = choose|after: LockPhase, next: LockAction|
                #[trigger] lock::follows(lock, happened, after, next) && after_lock(
                    stored,
                    account_id,
                    outbound_proxy,
                    after,
                    next,
                    phases[n],
                    actions[n - 1],
                );
            assert(lock::follows(lock, happened, after, next));
        },
        _ => {},
    }
    if n > 1 {
        lemma_course(request, operations, phases, events, actions, n - 1);
    }
}

/// A login that was taken hold of is let go unless it is complete, and before anybody is told what came
/// of it: it can be asked after again. One that is complete is not let go.
pub proof fn released_unless_complete(
    request: PollRequest,
    operations: Seq<CredentialOperation>,
    phases: Seq<PollPhase>,
    events: Seq<PollEvent>,
    actions: Seq<PollAction>,
)
    requires
        is_run(request, operations, phases, events, actions),
        is_held(events),
        phases.last() is Ended,
    ensures
        !(actions.last() is Complete) ==> events.len() > 1 && actions[events.len() - 2] is Release
            && events.last() is Released,
        actions.last() is Complete ==> forall|i: int|
            0 <= i < actions.len() ==> !(#[trigger] actions[i] is Release),
{
    let n = events.len() as int;
    assert(can_happen(phases[n - 1], events[n - 1]));
    assert(follows(request, operations, phases[n - 1], events[n - 1], phases[n], actions[n - 1]));
    if n == 1 {
        assert(phases[0] is Claiming);
    } else {
        lemma_course(request, operations, phases, events, actions, n - 1);
        if phases[n - 1] is Locking {
            lemma_course(request, operations, phases, events, actions, n);
            let lock = phases[n - 1]->lock;
            let happened = events[n - 1]->Lock_0;
            let (after, next) = choose|after: LockPhase, next: LockAction|
                #[trigger] lock::follows(lock, happened, after, next) && after_lock(
                    phases[n - 1]->Locking_stored,
                    phases[n - 1]->account_id,
                    phases[n - 1]->Locking_outbound_proxy,
                    after,
                    next,
                    phases[n],
                    actions[n - 1],
                );
            assert(false);
        }
    }
    if actions.last() is Complete {
        assert forall|i: int| 0 <= i < actions.len() implies !(#[trigger] actions[i] is Release) by {
            if i < n - 1 {
                lemma_course(request, operations, phases, events, actions, i + 1);
                if actions[i] is Release {
                    assert(can_happen(phases[i + 1], events[i + 1]));
                    assert(follows(
                        request,
                        operations,
                        phases[i + 1],
                        events[i + 1],
                        phases[i + 2],
                        actions[i + 1],
                    ));
                    lemma_course(request, operations, phases, events, actions, i + 2);
                    assert(false);
                }
            }
        }
    }
}

/// What happened about the lock.
pub open spec fn lock_events(events: Seq<PollEvent>) -> Seq<LockEvent>
    decreases events.len(),
{
    if events.len() == 0 {
        Seq::empty()
    } else {
        match events.last() {
            PollEvent::Lock(happened) => lock_events(events.drop_last()).push(happened),
            _ => lock_events(events.drop_last()),
        }
    }
}

/// A login is the one that was taken hold of, and it was open then: it was started with the plugin as it
/// is, and had not ended.
pub open spec fn is_claimed(
    request: PollRequest,
    events: Seq<PollEvent>,
    stored: StoredLogin,
) -> bool {
    events.len() > 0 && (events[0] matches PollEvent::Claimed {
        reply: ClaimReply::Claimed(payload),
        now_ms,
    } && read_stored(JsonView::Object(members_view(payload@))) == Some(stored@) && is_open(
        stored@,
        request.binding@,
        now_ms,
    ))
}

/// The request that a login belongs to was read next, and it may go on.
pub open spec fn is_permitted(
    request: PollRequest,
    operations: Seq<CredentialOperation>,
    events: Seq<PollEvent>,
) -> bool {
    events.len() > 1 && (events[1] matches PollEvent::RequestRead(pending) && pending_fault(
        pending,
        operations,
        request.kind@,
    ) is None)
}

/// What a phase of a run has behind it.
pub open spec fn is_traced(
    request: PollRequest,
    operations: Seq<CredentialOperation>,
    events: Seq<PollEvent>,
    phase: PollPhase,
) -> bool {
    match phase {
        PollPhase::Claiming => events.len() == 0,
        PollPhase::ReadingRequest { stored } => events.len() == 1 && is_claimed(
            request,
            events,
            stored,
        ) && lock_events(events) == Seq::<LockEvent>::empty(),
        PollPhase::Locking { stored, lock, .. } => is_claimed(request, events, stored)
            && is_permitted(request, operations, events) && lock::is_reached(
            lock_events(events),
            lock,
        ) && !(lock is Ended),
        PollPhase::Asking { stored, locked, .. } => is_claimed(request, events, stored)
            && is_permitted(request, operations, events) && (locked matches Some(credential)
            ==> lock::is_locked(lock_events(events), credential)),
        _ => true,
    }
}

proof fn lemma_traced(
    request: PollRequest,
    operations: Seq<CredentialOperation>,
    phases: Seq<PollPhase>,
    events: Seq<PollEvent>,
    actions: Seq<PollAction>,
    n: int,
)
    requires
        is_run(request, operations, phases, events, actions),
        0 <= n <= events.len(),
    ensures
        is_traced(request, operations, events.take(n), phases[n]),
    decreases n,
{
    if n > 0 {
        lemma_traced(request, operations, phases, events, actions, n - 1);
        let past = events.take(n - 1);
        let all = events.take(n);
        let before = phases[n - 1];
        let event = events[n - 1];
        assert(can_happen(before, event));
        assert(follows(request, operations, before, event, phases[n], actions[n - 1]));
        assert(all.drop_last() =~= past);
        assert(all.last() == event);
        assert(forall|i: int| 0 <= i < n - 1 ==> all[i] == past[i]);
        match (before, event) {
            (PollPhase::Claiming, _) => {
                assert(past =~= Seq::<PollEvent>::empty());
                assert(lock_events(past) =~= Seq::<LockEvent>::empty());
            },
            (
                PollPhase::Locking { stored, account_id, outbound_proxy, lock },
                PollEvent::Lock(happened),
            ) => {
                let (after, next) = choose|after: LockPhase, next: LockAction|
                    #[trigger] lock::follows(lock, happened, after, next) && after_lock(
                        stored,
                        account_id,
                        outbound_proxy,
                        after,
                        next,
                        phases[n],
                        actions[n - 1],
                    );
                lock::lock_keeps_order(lock_events(past), lock, happened, after, next);
            },
            _ => {},
        }
    }
}

/// The plugin is asked only after a login that was open when it was taken hold of and that belongs to
/// whoever asks; and where an account is logged in again, only about the credential that was read again
/// once both leases were held.
pub proof fn asked_only_where_permitted(
    request: PollRequest,
    operations: Seq<CredentialOperation>,
    phases: Seq<PollPhase>,
    events: Seq<PollEvent>,
    actions: Seq<PollAction>,
)
    requires
        is_run(request, operations, phases, events, actions),
        events.len() > 0,
        actions.last() is Ask,
    ensures
        is_permitted(request, operations, events),
        phases.last() matches PollPhase::Asking { stored, locked, .. } && is_claimed(
            request,
            events,
            stored,
        ) && (locked matches Some(credential) ==> lock::is_locked(lock_events(events), credential)),
{
    let n = events.len() as int;
    let before = phases[n - 1];
    assert(can_happen(before, events[n - 1]));
    assert(follows(request, operations, before, events[n - 1], phases[n], actions[n - 1]));
    lemma_traced(request, operations, phases, events, actions, n);
    assert(events.take(n) =~= events);
    match (before, events[n - 1]) {
        (PollPhase::Locking { stored, account_id, outbound_proxy, lock }, PollEvent::Lock(happened)) => {
            let (after, next) = choose|after: LockPhase, next: LockAction|
                #[trigger] lock::follows(lock, happened, after, next) && after_lock(
                    stored,
                    account_id,
                    outbound_proxy,
                    after,
                    next,
                    phases[n],
                    actions[n - 1],
                );
            assert(next is Hold);
        },
        _ => {},
    }
}

/// A login is complete only by an answer that came before it ended.
pub proof fn complete_in_time(
    request: PollRequest,
    operations: Seq<CredentialOperation>,
    phases: Seq<PollPhase>,
    events: Seq<PollEvent>,
    actions: Seq<PollAction>,
)
    requires
        is_run(request, operations, phases, events, actions),
        events.len() > 0,
        actions.last() is Complete,
    ensures
        phases[events.len() - 1] matches PollPhase::Asking { stored, .. } && is_claimed(
            request,
            events,
            stored,
        ) && (events.last() matches PollEvent::Answered { answer: Ok(_), now_ms, .. } && now_ms
            < stored.expires_at_ms),
{
    let n = events.len() as int;
    let before = phases[n - 1];
    assert(can_happen(before, events[n - 1]));
    assert(follows(request, operations, before, events[n - 1], phases[n], actions[n - 1]));
    lemma_traced(request, operations, phases, events, actions, n - 1);
    match (before, events[n - 1]) {
        (PollPhase::Locking { stored, account_id, outbound_proxy, lock }, PollEvent::Lock(happened)) => {
            let (after, next) = choose|after: LockPhase, next: LockAction|
                #[trigger] lock::follows(lock, happened, after, next) && after_lock(
                    stored,
                    account_id,
                    outbound_proxy,
                    after,
                    next,
                    phases[n],
                    actions[n - 1],
                );
            assert(false);
        },
        _ => {},
    }
    assert(n > 1);
    assert(events.take(n - 1)[0] == events[0]);
}

/// Whoever cannot take hold of a login is told why: it is not there, is another's, is asked after
/// already, or the store failed. One that is held but cannot go on is let go.
pub proof fn claims_by_reply(
    request: PollRequest,
    operations: Seq<CredentialOperation>,
    reply: ClaimReply,
    now_ms: i64,
    phase: PollPhase,
    action: PollAction,
)
    requires
        follows(
            request,
            operations,
            PollPhase::Claiming,
            PollEvent::Claimed { reply, now_ms },
            phase,
            action,
        ),
    ensures
        reply is NotFound ==> (action matches PollAction::Fail(error) && error.kind is NotFound),
        reply is OwnerMismatch ==> (action matches PollAction::Fail(error) && error.kind is Invalid),
        reply is InProgress ==> (action matches PollAction::Fail(error) && error.kind is Conflict),
        reply is Failed ==> (action matches PollAction::Fail(error) && error.kind is Unavailable),
        reply is Claimed ==> action is Release || action is ReadRequest,
        reply matches ClaimReply::Claimed(payload) ==> (action is ReadRequest <==> {
            let found = read_stored(JsonView::Object(members_view(payload@)));
            &&& found is Some
            &&& found->0.version == 1
            &&& found->0.binding == request.binding@
            &&& now_ms < found->0.expires_at_ms
        }),
{
}

/// The request that a login belongs to goes on exactly if it is one, was started by whoever asks after
/// it, and is one for a login with this provider.
pub proof fn requests_go_on(
    request: PollRequest,
    operations: Seq<CredentialOperation>,
    stored: StoredLogin,
    pending: Option<PendingLogin>,
    phase: PollPhase,
    action: PollAction,
)
    requires
        follows(
            request,
            operations,
            PollPhase::ReadingRequest { stored },
            PollEvent::RequestRead(pending),
            phase,
            action,
        ),
    ensures
        !(action is Release) <==> pending is Some && pending->0.pending.owner_matches
            && operations.contains(CredentialOperation::Login) && pending->0.pending.provider@
            == request.kind@,
        !(action is Release) && pending->0.target is Create ==> (action matches PollAction::Ask(call)
            && call.operation is Login && call.context.account_id is None && call.scope.proxy
            == pending->0.outbound_proxy),
        !(action is Release) && pending->0.target is Reauthorize ==> action == PollAction::Lock(
            LockAction::Load,
        ),
{
}

/// What a plugin answered is told as what it is: a wait is passed on once the login was let go, new
/// accounts are those that it brought, and a credential that is replaced is that of the account that
/// was locked.
pub proof fn answers_by_kind(
    request: PollRequest,
    operations: Seq<CredentialOperation>,
    stored: StoredLogin,
    locked: Option<LoadedCredential>,
    outbound_proxy: Option<String>,
    reply: LoginPollResult,
    state: UpstreamSendState,
    now_ms: i64,
    phase: PollPhase,
    action: PollAction,
)
    requires
        follows(
            request,
            operations,
            PollPhase::Asking { stored, locked, outbound_proxy },
            PollEvent::Answered { answer: Ok(reply), state, now_ms },
            phase,
            action,
        ),
    ensures
        stored.expires_at_ms <= now_ms ==> action is Release,
        action is Complete ==> reply is Complete && now_ms < stored.expires_at_ms,
        reply is Pending ==> action is Release,
        action is Release ==> (phase matches PollPhase::Releasing { told } && (told is Ok
            ==> reply is Pending && told->Ok_0 == reply->retry_after_ms) && (told is Err ==> (
        told->Err_0.kind is Ambiguous <==> !(state is NotSent)))),
        action matches PollAction::Complete(LoginOutcome::Create(created)) ==> locked is None
            && created@.len() == reply->accounts@.len(),
        action matches PollAction::Complete(LoginOutcome::Reauthorize(prepared)) ==> locked is Some
            && reply->accounts@.len() == 1 && prepared.expected_credential_revision
            == locked->0.account.revision,
{
}

/// Once a login was let go, whoever asked is told what came of it: how long to wait, or what failed. If
/// it could not be let go, that is told.
pub proof fn told_once_let_go(
    request: PollRequest,
    operations: Seq<CredentialOperation>,
    told: Result<u64, ProviderAdminError>,
    reply: ReleaseReply,
    phase: PollPhase,
    action: PollAction,
)
    requires
        follows(
            request,
            operations,
            PollPhase::Releasing { told },
            PollEvent::Released(reply),
            phase,
            action,
        ),
    ensures
        phase is Ended,
        reply is Failed ==> (action matches PollAction::Fail(error) && error.kind is Unavailable),
        !(reply is Failed) && told is Ok ==> action == (PollAction::Wait {
            retry_after_ms: told->Ok_0,
        }),
        !(reply is Failed) && told is Err ==> action == PollAction::Fail(told->Err_0),
{
}

/// A failure while the credential is locked, or of the call, lets the login go and is then told.
pub proof fn failures_let_go(
    request: PollRequest,
    operations: Seq<CredentialOperation>,
    before: PollPhase,
    event: PollEvent,
    phase: PollPhase,
    action: PollAction,
)
    requires
        follows(request, operations, before, event, phase, action),
        !(before is Claiming),
        !(before is Releasing),
    ensures
        !(action is Fail),
        event matches PollEvent::Answered { answer: Err(error), state, now_ms } ==> action
            is Release && phase == (PollPhase::Releasing { told: Err(error) }),
        action is Release <==> phase is Releasing,
        action is Complete <==> phase is Ended,
{
}

/// How asking for the end of a login begins.
pub open spec fn begins(
    operations: Seq<CredentialOperation>,
    callback_url: Option<String>,
    flow_id: Seq<char>,
    owner: AuthorizationOwner,
    request: PollRequest,
    result: Result<(LoginPolling, PollAction), ProviderAdminError>,
) -> bool {
    if !operations.contains(CredentialOperation::Login) {
        result matches Err(error) && error == admin(ProviderAdminErrorKind::Unsupported)
    } else if flow_id.len() == 0 || (callback_url matches Some(url) && byte_len(url@)
        > MAX_CALLBACK_BYTES) {
        result matches Err(error) && error == admin(ProviderAdminErrorKind::Invalid)
    } else {
        &&& result matches Ok(begun)
        &&& begun.0.request == request
        &&& begun.0.phase is Claiming
        &&& begun.1 matches PollAction::Claim(claim) && claim.flow@ == flow_id && claim.owner@
            == owner_text(owner) && is_uuid(claim.token@)
    }
}

/// A login is claimed for its owner before anything else is done about it. Without a name, or with an
/// address that is too long to be one, it is not claimed at all.
pub proof fn claimed_for_its_owner(
    operations: Seq<CredentialOperation>,
    callback_url: Option<String>,
    flow_id: Seq<char>,
    owner: AuthorizationOwner,
    request: PollRequest,
    result: Result<(LoginPolling, PollAction), ProviderAdminError>,
)
    requires
        begins(operations, callback_url, flow_id, owner, request, result),
    ensures
        result is Ok <==> operations.contains(CredentialOperation::Login) && flow_id.len() > 0 && (
        callback_url is Some ==> byte_len(callback_url->0@) <= 65536),
        result matches Ok(begun) ==> begun.0.request == request && (begun.1
            matches PollAction::Claim(claim) && claim.flow@ == flow_id && claim.owner@ == owner_text(
            owner,
        )),
        result matches Err(error) ==> (error.kind is Unsupported <==> !operations.contains(
            CredentialOperation::Login,
        )) && (error.kind is Unsupported || error.kind is Invalid),
{
}

} // verus!
