//! How a credential is locked before it is replaced: while somebody waited for the leases another may
//! have replaced it, so it is read again once both are held.

use vstd::prelude::*;

use crate::account::LoadedCredential;
use crate::fault::{admin, unavailable, ProviderAdminError, ProviderAdminErrorKind};
use crate::provider_ports::ProviderRefreshPolicy;
use crate::rotation::{ensure_revision, leased, LeaseReply};

verus! {

/// Where the locking of a credential is.
pub enum LockPhase {
    /// The credential is read for its version.
    Loading,
    /// It is read how many credentials may be replaced at a time.
    ReadingPolicy { revision: u64 },
    /// The lease on one of those places is asked for.
    TakingPlace { revision: u64 },
    /// The lease on the credential is asked for.
    TakingCredential { revision: u64 },
    /// Both leases are held, and the credential is read again.
    Reloading { revision: u64 },
    Ended,
}

/// What happened.
pub enum LockEvent {
    Loaded(Result<LoadedCredential, ProviderAdminError>),
    /// Nothing where the policy could not be read.
    PolicyRead(Option<ProviderRefreshPolicy>),
    PlaceAsked(LeaseReply),
    CredentialAsked(LeaseReply),
    Reloaded(Result<LoadedCredential, ProviderAdminError>),
}

/// What is done next.
pub enum LockAction {
    Load,
    ReadPolicy,
    /// A lease on one of so many places is asked for.
    TakePlace { concurrency: u32 },
    /// A lease on the credential at a version is asked for.
    TakeCredential { revision: u64 },
    Reload,
    /// The credential is locked, and this is what it is.
    Hold(LoadedCredential),
    Fail(ProviderAdminError),
}

/// An event that can happen in a phase.
pub open spec fn can_happen(phase: LockPhase, event: LockEvent) -> bool {
    match phase {
        LockPhase::Loading => event is Loaded,
        LockPhase::ReadingPolicy { .. } => event is PolicyRead,
        LockPhase::TakingPlace { .. } => event is PlaceAsked,
        LockPhase::TakingCredential { .. } => event is CredentialAsked,
        LockPhase::Reloading { .. } => event is Reloaded,
        LockPhase::Ended => false,
    }
}

/// The locking fails.
pub open spec fn fails(phase: LockPhase, action: LockAction, error: ProviderAdminError) -> bool {
    phase is Ended && action == LockAction::Fail(error)
}

/// Why a lease is not held.
pub open spec fn lease_fault(reply: LeaseReply) -> Option<ProviderAdminErrorKind> {
    match reply {
        LeaseReply::Acquired => None,
        LeaseReply::Busy => Some(ProviderAdminErrorKind::Conflict),
        LeaseReply::Failed => Some(ProviderAdminErrorKind::Unavailable),
    }
}

/// What follows an event.
pub open spec fn follows(
    before: LockPhase,
    event: LockEvent,
    phase: LockPhase,
    action: LockAction,
) -> bool {
    match (before, event) {
        (LockPhase::Loading, LockEvent::Loaded(loaded)) => match loaded {
            Ok(credential) => phase == (LockPhase::ReadingPolicy {
                revision: credential.account.revision,
            }) && action is ReadPolicy,
            Err(error) => fails(phase, action, error),
        },
        (LockPhase::ReadingPolicy { revision }, LockEvent::PolicyRead(policy)) => match policy {
            Some(policy) => phase == (LockPhase::TakingPlace { revision }) && action == (
            LockAction::TakePlace { concurrency: policy.concurrency }),
            None => fails(phase, action, admin(ProviderAdminErrorKind::Unavailable)),
        },
        (LockPhase::TakingPlace { revision }, LockEvent::PlaceAsked(reply)) => match lease_fault(
            reply,
        ) {
            None => phase == (LockPhase::TakingCredential { revision }) && action == (
            LockAction::TakeCredential { revision }),
            Some(fault) => fails(phase, action, admin(fault)),
        },
        (LockPhase::TakingCredential { revision }, LockEvent::CredentialAsked(reply)) => {
            match lease_fault(reply) {
                None => phase == (LockPhase::Reloading { revision }) && action is Reload,
                Some(fault) => fails(phase, action, admin(fault)),
            }
        },
        (LockPhase::Reloading { revision }, LockEvent::Reloaded(loaded)) => match loaded {
            Ok(credential) => if credential.account.revision == revision {
                phase is Ended && action == LockAction::Hold(credential)
            } else {
                fails(phase, action, admin(ProviderAdminErrorKind::Conflict))
            },
            Err(error) => fails(phase, action, error),
        },
        _ => false,
    }
}

/// The locking of a credential begins: it is read.
pub fn start() -> (begun: (LockPhase, LockAction))
    ensures
        begun.0 is Loading,
        begun.1 is Load,
{
    (LockPhase::Loading, LockAction::Load)
}

/// Takes in what happened, and says what is done next.
pub fn step(phase: LockPhase, event: LockEvent) -> (next: (LockPhase, LockAction))
    requires
        can_happen(phase, event),
    ensures
        follows(phase, event, next.0, next.1),
{
    match (phase, event) {
        (LockPhase::Loading, LockEvent::Loaded(loaded)) => match loaded {
            Ok(credential) => (
                LockPhase::ReadingPolicy { revision: credential.account.revision },
                LockAction::ReadPolicy,
            ),
            Err(error) => (LockPhase::Ended, LockAction::Fail(error)),
        },
        (LockPhase::ReadingPolicy { revision }, LockEvent::PolicyRead(policy)) => match policy {
            Some(policy) => (
                LockPhase::TakingPlace { revision },
                LockAction::TakePlace { concurrency: policy.concurrency() },
            ),
            None => (LockPhase::Ended, LockAction::Fail(unavailable())),
        },
        (LockPhase::TakingPlace { revision }, LockEvent::PlaceAsked(reply)) => match leased(reply) {
            Ok(()) => (
                LockPhase::TakingCredential { revision },
                LockAction::TakeCredential { revision },
            ),
            Err(error) => (LockPhase::Ended, LockAction::Fail(error)),
        },
        (LockPhase::TakingCredential { revision }, LockEvent::CredentialAsked(reply)) => {
            match leased(reply) {
                Ok(()) => (LockPhase::Reloading { revision }, LockAction::Reload),
                Err(error) => (LockPhase::Ended, LockAction::Fail(error)),
            }
        },
        (LockPhase::Reloading { revision }, LockEvent::Reloaded(loaded)) => match loaded {
            Ok(credential) => match ensure_revision(&credential.account, revision) {
                Ok(()) => (LockPhase::Ended, LockAction::Hold(credential)),
                Err(error) => (LockPhase::Ended, LockAction::Fail(error)),
            },
            Err(error) => (LockPhase::Ended, LockAction::Fail(error)),
        },
        _ => {
            assert(false);
            (LockPhase::Ended, LockAction::Fail(unavailable()))
        },
    }
}

/// What happened until a credential was locked, as far as a phase goes: it was read at a version, the
/// policy was read, and the leases were acquired, one after the other.
pub open spec fn is_reached(events: Seq<LockEvent>, phase: LockPhase) -> bool {
    match phase {
        LockPhase::Loading => events.len() == 0,
        LockPhase::ReadingPolicy { revision } => events.len() == 1 && is_read_at(
            events[0],
            revision,
        ),
        LockPhase::TakingPlace { revision } => events.len() == 2 && is_read_at(events[0], revision)
            && (events[1] matches LockEvent::PolicyRead(policy) && policy is Some),
        LockPhase::TakingCredential { revision } => events.len() == 3 && is_read_at(
            events[0],
            revision,
        ) && (events[1] matches LockEvent::PolicyRead(policy) && policy is Some) && events[2]
            == LockEvent::PlaceAsked(LeaseReply::Acquired),
        LockPhase::Reloading { revision } => events.len() == 4 && is_read_at(events[0], revision)
            && (events[1] matches LockEvent::PolicyRead(policy) && policy is Some) && events[2]
            == LockEvent::PlaceAsked(LeaseReply::Acquired) && events[3]
            == LockEvent::CredentialAsked(LeaseReply::Acquired),
        LockPhase::Ended => true,
    }
}

/// The credential was read at a version.
pub open spec fn is_read_at(event: LockEvent, revision: u64) -> bool {
    event matches LockEvent::Loaded(Ok(credential)) && credential.account.revision == revision
}

/// What happened until a credential was locked: it was read, the policy was read, both leases were
/// acquired, and only then was it read again, at the version that it was read at first.
pub open spec fn is_locked(events: Seq<LockEvent>, credential: LoadedCredential) -> bool {
    &&& events.len() == 5
    &&& is_read_at(events[0], credential.account.revision)
    &&& events[1] matches LockEvent::PolicyRead(policy) && policy is Some
    &&& events[2] == LockEvent::PlaceAsked(LeaseReply::Acquired)
    &&& events[3] == LockEvent::CredentialAsked(LeaseReply::Acquired)
    &&& events[4] == LockEvent::Reloaded(Ok(credential))
}

/// One more event keeps to the order, and where the credential is held it was locked.
pub proof fn lock_keeps_order(
    events: Seq<LockEvent>,
    before: LockPhase,
    event: LockEvent,
    phase: LockPhase,
    action: LockAction,
)
    requires
        is_reached(events, before),
        follows(before, event, phase, action),
    ensures
        is_reached(events.push(event), phase),
        action matches LockAction::Hold(credential) ==> is_locked(events.push(event), credential),
{
    let all = events.push(event);
    assert(forall|i: int| 0 <= i < events.len() ==> all[i] == events[i]);
}

/// A credential is locked step by step: at the version that it was first read at, on one of as many
/// places as the policy allows, and it is held only if it is still at that version. Whatever is busy
/// or was changed meanwhile is a conflict, and whatever failed is told as it is.
pub proof fn locks_go_on(before: LockPhase, event: LockEvent, phase: LockPhase, action: LockAction)
    requires
        follows(before, event, phase, action),
    ensures
        event matches LockEvent::Loaded(Ok(credential)) ==> action is ReadPolicy && phase == (
        LockPhase::ReadingPolicy { revision: credential.account.revision }),
        event matches LockEvent::Loaded(Err(error)) ==> action == LockAction::Fail(error),
        event matches LockEvent::PolicyRead(Some(policy)) ==> action == (LockAction::TakePlace {
            concurrency: policy.concurrency,
        }),
        event matches LockEvent::PolicyRead(None) ==> (action matches LockAction::Fail(error)
            && error.kind is Unavailable),
        event matches LockEvent::PlaceAsked(LeaseReply::Acquired) ==> (before
            matches LockPhase::TakingPlace { revision } && action == (LockAction::TakeCredential {
            revision,
        })),
        event matches LockEvent::CredentialAsked(LeaseReply::Acquired) ==> action is Reload,
        event == LockEvent::PlaceAsked(LeaseReply::Busy) || event == LockEvent::CredentialAsked(
            LeaseReply::Busy,
        ) ==> (action matches LockAction::Fail(error) && error.kind is Conflict),
        event == LockEvent::PlaceAsked(LeaseReply::Failed) || event == LockEvent::CredentialAsked(
            LeaseReply::Failed,
        ) ==> (action matches LockAction::Fail(error) && error.kind is Unavailable),
        event matches LockEvent::Reloaded(Err(error)) ==> action == LockAction::Fail(error),
        event matches LockEvent::Reloaded(Ok(credential)) ==> (before matches LockPhase::Reloading {
            revision,
        } && (credential.account.revision == revision ==> action == LockAction::Hold(credential))
            && (credential.account.revision != revision ==> (action matches LockAction::Fail(error)
            && error.kind is Conflict))),
        action is Fail || action is Hold <==> phase is Ended,
{
}

} // verus!
