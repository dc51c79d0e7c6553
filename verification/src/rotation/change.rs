//! How a credential is replaced: it is locked, the plugin is asked with what was read under the lock, and
//! the answer takes its place.

use vstd::prelude::*;

use crate::account::{CredentialFacts, LoadedCredential, ProviderAccount};
use crate::credential_form::CredentialInputs;
use crate::fault::{
    admin, invalid, unavailable, ProviderAdminError, ProviderAdminErrorKind, UpstreamSendState,
};
use crate::json::Json;
use crate::management::{
    is_admitted, is_prepared_call, management_call_from, unusable, ManagementCall,
    ManagementOrigin, ProviderOperation,
};
use crate::manifest::CredentialOperation;
use crate::rotation::lock::{self, LockAction, LockEvent, LockPhase};
use crate::rotation::{
    begin, ensure_revision, is_replacement, may_replace, replacement_fault, replacement_operations,
    take_changed, CredentialChange, PreparedCredentialRotation,
};

verus! {

/// What is asked for.
pub struct RotationRequest {
    /// The account, as whoever asks knows it.
    pub account: ProviderAccount,
    /// The document that takes the credential's place; none where the provider renews it.
    pub replacement: Option<Vec<(String, Json)>>,
    pub kind: String,
    pub origin: ManagementOrigin,
}

impl RotationRequest {
    /// Which operation is carried out.
    pub open spec fn operation(&self) -> ProviderOperation {
        replacement_operations(self.replacement is None).1
    }

    /// Why the credential is replaced.
    pub open spec fn change(&self) -> CredentialChange {
        if self.replacement is None {
            CredentialChange::Refresh
        } else {
            CredentialChange::Rotate
        }
    }
}

/// Where the replacement of a credential is.
pub enum RotationPhase {
    /// The credential is locked.
    Locking(LockPhase),
    /// The plugin is asked with the credential that is locked.
    Asking { credential: LoadedCredential },
    Ended,
}

/// What happened.
pub enum RotationEvent {
    Lock(LockEvent),
    /// What the plugin answered, and how far the requests of the call went.
    Answered { answer: Result<CredentialFacts, ProviderAdminError>, state: UpstreamSendState },
}

/// What is done next.
pub enum RotationAction {
    Lock(LockAction),
    /// The plugin is asked, by this call.
    Ask(ManagementCall),
    /// The credential takes the other's place. The leases are held until it is saved.
    Replace(PreparedCredentialRotation),
    Fail(ProviderAdminError),
}

/// The replacement of a credential.
pub struct Rotation {
    pub request: RotationRequest,
    pub phase: RotationPhase,
}

/// An event that can happen in a phase.
pub open spec fn can_happen(phase: RotationPhase, event: RotationEvent) -> bool {
    match phase {
        RotationPhase::Locking(lock) => event matches RotationEvent::Lock(happened)
            && lock::can_happen(lock, happened),
        RotationPhase::Asking { .. } => event is Answered,
        RotationPhase::Ended => false,
    }
}

/// The replacement fails.
pub open spec fn fails(
    phase: RotationPhase,
    action: RotationAction,
    error: ProviderAdminError,
) -> bool {
    phase is Ended && action == RotationAction::Fail(error)
}

/// What follows when the credential is locked.
pub open spec fn after_locked(
    request: RotationRequest,
    credential: LoadedCredential,
    phase: RotationPhase,
    action: RotationAction,
) -> bool {
    if credential.account.revision != request.account.revision || !is_admitted(
        request.operation(),
        Some(&credential.account),
        request.origin,
    ) {
        fails(phase, action, admin(ProviderAdminErrorKind::Conflict))
    } else {
        phase == (RotationPhase::Asking { credential }) && (action matches RotationAction::Ask(call)
            && is_prepared_call(
            call,
            request.operation(),
            Some(&credential.account),
            credential.account.outbound_proxy,
            request.origin,
        ))
    }
}

/// What follows a step of the lock.
pub open spec fn after_lock(
    request: RotationRequest,
    lock: LockPhase,
    next: LockAction,
    phase: RotationPhase,
    action: RotationAction,
) -> bool {
    match next {
        LockAction::Hold(credential) => after_locked(request, credential, phase, action),
        LockAction::Fail(error) => fails(phase, action, error),
        _ => phase == RotationPhase::Locking(lock) && action == RotationAction::Lock(next),
    }
}

/// What follows an event.
pub open spec fn follows(
    request: RotationRequest,
    before: RotationPhase,
    event: RotationEvent,
    phase: RotationPhase,
    action: RotationAction,
) -> bool {
    match (before, event) {
        (RotationPhase::Locking(lock), RotationEvent::Lock(happened)) => {
            exists|after: LockPhase, next: LockAction|
                #[trigger] lock::follows(lock, happened, after, next) && after_lock(
                    request,
                    after,
                    next,
                    phase,
                    action,
                )
        },
        (RotationPhase::Asking { credential }, RotationEvent::Answered { answer, state }) => {
            match answer {
                Ok(facts) => if may_replace(credential.account, facts, request.change()) {
                    phase is Ended && (action matches RotationAction::Replace(prepared)
                        && is_replacement(
                        prepared,
                        credential.account,
                        facts,
                        request.change(),
                        request.kind@,
                    ))
                } else {
                    fails(phase, action, unusable(request.operation(), state))
                },
                Err(error) => fails(phase, action, error),
            }
        },
        _ => false,
    }
}

impl Rotation {
    /// A replacement that the provider declares begins with the lock. `is_account` says that the name
    /// is one that accounts have.
    pub fn new(
        operations: &Vec<CredentialOperation>,
        inputs: &CredentialInputs,
        account: ProviderAccount,
        kind: &str,
        replacement: Option<Vec<(String, Json)>>,
        origin: ManagementOrigin,
        is_account: bool,
    ) -> (result: Result<(Self, RotationAction), ProviderAdminError>)
        ensures
            begins(
                operations@,
                *inputs,
                account,
                kind@,
                replacement,
                origin,
                is_account,
                result,
            ),
    {
        match begin(operations, inputs, &account, kind, &replacement) {
            Ok(_) => {},
            Err(error) => return Err(error),
        }
        if !is_account {
            return Err(invalid());
        }
        let (phase, action) = lock::start();
        let request = RotationRequest { account, replacement, kind: kind.to_owned(), origin };
        Ok(
            (
                Rotation { request, phase: RotationPhase::Locking(phase) },
                RotationAction::Lock(action),
            ),
        )
    }

    /// Takes in what happened, and says what is done next.
    pub fn step(self, event: RotationEvent) -> (next: (Self, RotationAction))
        requires
            can_happen(self.phase, event),
        ensures
            next.0.request == self.request,
            follows(self.request, self.phase, event, next.0.phase, next.1),
    {
        let request = self.request;
        let (phase, action) = match (self.phase, event) {
            (RotationPhase::Locking(lock), RotationEvent::Lock(happened)) => {
                let (after, next) = lock::step(lock, happened);
                assert(lock::follows(lock, happened, after, next));
                match next {
                    LockAction::Hold(credential) => locked(&request, credential),
                    LockAction::Fail(error) => (RotationPhase::Ended, RotationAction::Fail(error)),
                    next => (RotationPhase::Locking(after), RotationAction::Lock(next)),
                }
            },
            (RotationPhase::Asking { credential }, RotationEvent::Answered { answer, state }) => {
                let (operation, change) = match &request.replacement {
                    None => (ProviderOperation::Refresh, CredentialChange::Refresh),
                    Some(_) => (ProviderOperation::Rotate, CredentialChange::Rotate),
                };
                match answer {
                    Ok(facts) => match take_changed(
                        operation,
                        state,
                        &credential.account,
                        facts,
                        change,
                        request.kind.as_str(),
                    ) {
                        Ok(prepared) => (
                            RotationPhase::Ended,
                            RotationAction::Replace(prepared),
                        ),
                        Err(error) => (RotationPhase::Ended, RotationAction::Fail(error)),
                    },
                    Err(error) => (RotationPhase::Ended, RotationAction::Fail(error)),
                }
            },
            _ => {
                assert(false);
                (RotationPhase::Ended, RotationAction::Fail(unavailable()))
            },
        };
        (Rotation { request, phase }, action)
    }
}

fn locked(request: &RotationRequest, credential: LoadedCredential) -> (next: (
    RotationPhase,
    RotationAction,
))
    ensures
        after_locked(*request, credential, next.0, next.1),
{
    let operation = match &request.replacement {
        None => ProviderOperation::Refresh,
        Some(_) => ProviderOperation::Rotate,
    };
    match ensure_revision(&credential.account, request.account.revision) {
        Ok(()) => {},
        Err(error) => return (RotationPhase::Ended, RotationAction::Fail(error)),
    }
    match management_call_from(
        operation,
        Some(&credential.account),
        credential.account.outbound_proxy.clone(),
        &request.origin,
    ) {
        Ok(call) => (RotationPhase::Asking { credential }, RotationAction::Ask(call)),
        Err(error) => (RotationPhase::Ended, RotationAction::Fail(error)),
    }
}

/// A replacement that was carried out up to some point, from its beginning.
pub open spec fn is_run(
    request: RotationRequest,
    phases: Seq<RotationPhase>,
    events: Seq<RotationEvent>,
    actions: Seq<RotationAction>,
) -> bool {
    &&& phases.len() == events.len() + 1
    &&& actions.len() == events.len()
    &&& phases[0] == RotationPhase::Locking(LockPhase::Loading)
    &&& forall|i: int|
        0 <= i < events.len() ==> can_happen(phases[i], #[trigger] events[i]) && follows(
            request,
            phases[i],
            events[i],
            phases[i + 1],
            actions[i],
        )
}

/// What happened about the lock.
pub open spec fn lock_events(events: Seq<RotationEvent>) -> Seq<LockEvent>
    decreases events.len(),
{
    if events.len() == 0 {
        Seq::empty()
    } else {
        match events.last() {
            RotationEvent::Lock(happened) => lock_events(events.drop_last()).push(happened),
            _ => lock_events(events.drop_last()),
        }
    }
}

/// What a phase of a run has behind it.
pub open spec fn is_traced(
    request: RotationRequest,
    events: Seq<RotationEvent>,
    phase: RotationPhase,
) -> bool {
    match phase {
        RotationPhase::Locking(lock) => lock::is_reached(lock_events(events), lock) && !(lock
            is Ended),
        RotationPhase::Asking { credential } => lock::is_locked(lock_events(events), credential)
            && credential.account.revision == request.account.revision,
        RotationPhase::Ended => true,
    }
}

proof fn lemma_traced(
    request: RotationRequest,
    phases: Seq<RotationPhase>,
    events: Seq<RotationEvent>,
    actions: Seq<RotationAction>,
    n: int,
)
    requires
        is_run(request, phases, events, actions),
        0 <= n <= events.len(),
    ensures
        is_traced(request, events.take(n), phases[n]),
    decreases n,
{
    if n > 0 {
        lemma_traced(request, phases, events, actions, n - 1);
        let past = events.take(n - 1);
        let event = events[n - 1];
        assert(can_happen(phases[n - 1], event));
        assert(follows(request, phases[n - 1], event, phases[n], actions[n - 1]));
        assert(events.take(n).drop_last() =~= past);
        assert(events.take(n).last() == event);
        match (phases[n - 1], event) {
            (RotationPhase::Locking(lock), RotationEvent::Lock(happened)) => {
                let (after, next) = choose|after: LockPhase, next: LockAction|
                    #[trigger] lock::follows(lock, happened, after, next) && after_lock(
                        request,
                        after,
                        next,
                        phases[n],
                        actions[n - 1],
                    );
                lock::lock_keeps_order(lock_events(past), lock, happened, after, next);
            },
            _ => {},
        }
    }
}

/// The plugin is asked only with the credential that was read again once both leases were held, at the
/// version that it was first read at and that whoever asks for the replacement knows.
pub proof fn asked_with_what_was_locked(
    request: RotationRequest,
    phases: Seq<RotationPhase>,
    events: Seq<RotationEvent>,
    actions: Seq<RotationAction>,
    call: ManagementCall,
)
    requires
        is_run(request, phases, events, actions),
        events.len() > 0,
        actions.last() == RotationAction::Ask(call),
    ensures
        phases.last() matches RotationPhase::Asking { credential } && lock::is_locked(
            lock_events(events),
            credential,
        ) && credential.account.revision == request.account.revision && is_prepared_call(
            call,
            request.operation(),
            Some(&credential.account),
            credential.account.outbound_proxy,
            request.origin,
        ),
{
    let n = events.len() - 1;
    assert(can_happen(phases[n], events[n]));
    assert(follows(request, phases[n], events[n], phases[n + 1], actions[n]));
    lemma_traced(request, phases, events, actions, n + 1);
    assert(events.take(n + 1) =~= events);
    assert(phases[n] is Locking);
    let lock = phases[n]->Locking_0;
    let happened = events[n]->Lock_0;
    let (after, next) = choose|after: LockPhase, next: LockAction|
        #[trigger] lock::follows(lock, happened, after, next) && after_lock(
            request,
            after,
            next,
            phases[n + 1],
            actions[n],
        );
    assert(next is Hold);
}

/// What takes a credential's place was answered for the credential that was locked, and replaces it
/// only at the version that it was locked at.
pub proof fn replaced_what_was_locked(
    request: RotationRequest,
    phases: Seq<RotationPhase>,
    events: Seq<RotationEvent>,
    actions: Seq<RotationAction>,
    prepared: PreparedCredentialRotation,
)
    requires
        is_run(request, phases, events, actions),
        events.len() > 0,
        actions.last() == RotationAction::Replace(prepared),
    ensures
        prepared.expected_credential_revision == request.account.revision,
        exists|credential: LoadedCredential, facts: CredentialFacts|
            {
                &&& #[trigger] lock::is_locked(lock_events(events), credential)
                &&& #[trigger] may_replace(credential.account, facts, request.change())
                &&& is_replacement(
                    prepared,
                    credential.account,
                    facts,
                    request.change(),
                    request.kind@,
                )
            },
{
    let n = events.len() - 1;
    assert(can_happen(phases[n], events[n]));
    assert(follows(request, phases[n], events[n], phases[n + 1], actions[n]));
    lemma_traced(request, phases, events, actions, n);
    if phases[n] is Locking {
        let lock = phases[n]->Locking_0;
        let happened = events[n]->Lock_0;
        let (after, next) = choose|after: LockPhase, next: LockAction|
            #[trigger] lock::follows(lock, happened, after, next) && after_lock(
                request,
                after,
                next,
                phases[n + 1],
                actions[n],
            );
        assert(false);
    }
    assert(events.drop_last() =~= events.take(n));
    let credential = phases[n]->Asking_credential;
    let facts = events[n]->Answered_answer->Ok_0;
    assert(lock::is_locked(lock_events(events), credential));
    assert(may_replace(credential.account, facts, request.change()));
}

/// A credential is renewed by the provider where no document takes its place, and replaced by the
/// document where one does.
pub proof fn replaced_by_document_or_renewed(request: RotationRequest)
    ensures
        request.replacement is None ==> request.operation() is Refresh && request.change()
            is Refresh,
        request.replacement is Some ==> request.operation() is Rotate && request.change() is Rotate,
{
}

/// Once the credential is locked, the plugin is asked for the account as it is, through its proxy, only
/// if it is at the version that whoever asks knows and the call may be made; otherwise it is a
/// conflict.
pub proof fn asked_at_the_known_version(
    request: RotationRequest,
    credential: LoadedCredential,
    phase: RotationPhase,
    action: RotationAction,
)
    requires
        after_locked(request, credential, phase, action),
    ensures
        action is Ask <==> credential.account.revision == request.account.revision && is_admitted(
            request.operation(),
            Some(&credential.account),
            request.origin,
        ),
        !(action is Ask) ==> (action matches RotationAction::Fail(error) && error.kind is Conflict)
            && phase is Ended,
        action matches RotationAction::Ask(call) ==> call.operation == request.operation()
            && call.context.account_id is Some && call.context.account_id->0@
            == credential.account.id@ && call.context.credential_revision == Some(
            credential.account.revision,
        ) && call.scope.proxy == credential.account.outbound_proxy && phase == (
        RotationPhase::Asking { credential }),
{
}

/// What the plugin answered takes the credential's place exactly if it may; an answer that may not is
/// in doubt exactly if something may have been sent, and a failure is told as it is.
pub proof fn answers_take_its_place(
    request: RotationRequest,
    credential: LoadedCredential,
    answer: Result<CredentialFacts, ProviderAdminError>,
    state: UpstreamSendState,
    phase: RotationPhase,
    action: RotationAction,
)
    requires
        follows(
            request,
            RotationPhase::Asking { credential },
            RotationEvent::Answered { answer, state },
            phase,
            action,
        ),
    ensures
        phase is Ended,
        answer is Err ==> action == RotationAction::Fail(answer->Err_0),
        action is Replace <==> answer is Ok && may_replace(
            credential.account,
            answer->Ok_0,
            request.change(),
        ),
        answer is Ok && !(action is Replace) ==> (action matches RotationAction::Fail(error) && (
        error.kind is Ambiguous <==> !(state is NotSent)) && (error.kind is BadGateway <==> state
            is NotSent)),
        action matches RotationAction::Replace(prepared) ==> prepared.expected_credential_revision
            == credential.account.revision && prepared.account_id@ == credential.account.id@,
{
}

/// How the replacement of a credential begins.
pub open spec fn begins(
    operations: Seq<CredentialOperation>,
    inputs: CredentialInputs,
    account: ProviderAccount,
    kind: Seq<char>,
    replacement: Option<Vec<(String, Json)>>,
    origin: ManagementOrigin,
    is_account: bool,
    result: Result<(Rotation, RotationAction), ProviderAdminError>,
) -> bool {
    match replacement_fault(operations, inputs, account, kind, replacement) {
        Some(fault) => result matches Err(error) && error == admin(fault),
        None => if !is_account {
            result matches Err(error) && error == admin(ProviderAdminErrorKind::Invalid)
        } else {
            &&& result matches Ok(begun)
            &&& begun.0.request.account == account
            &&& begun.0.request.replacement == replacement
            &&& begun.0.request.kind@ == kind
            &&& begun.0.request.origin == origin
            &&& begun.0.phase == RotationPhase::Locking(LockPhase::Loading)
            &&& begun.1 == RotationAction::Lock(LockAction::Load)
        },
    }
}

/// The credential of an account is locked before anything is done to replace it, and nothing is done
/// with what is no account of this provider or cannot be replaced in the way that is asked for.
pub proof fn locked_before_anything_else(
    operations: Seq<CredentialOperation>,
    inputs: CredentialInputs,
    account: ProviderAccount,
    kind: Seq<char>,
    replacement: Option<Vec<(String, Json)>>,
    origin: ManagementOrigin,
    is_account: bool,
    result: Result<(Rotation, RotationAction), ProviderAdminError>,
)
    requires
        begins(operations, inputs, account, kind, replacement, origin, is_account, result),
    ensures
        result is Ok ==> is_account && account.provider@ == kind && (operations.contains(
            CredentialOperation::Refresh,
        ) || operations.contains(CredentialOperation::Rotate)),
        replacement is None && is_account && account.provider@ == kind && operations.contains(
            CredentialOperation::Refresh,
        ) ==> result is Ok,
        result matches Ok(begun) ==> begun.1 == RotationAction::Lock(LockAction::Load)
            && begun.0.request.account == account && begun.0.request.replacement == replacement
            && begun.0.request.origin == origin,
        !is_account ==> result is Err,
{
    crate::rotation::replacement_is_declared(operations, inputs, account, kind, replacement);
}

} // verus!
