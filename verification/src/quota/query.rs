//! The question for the quota of an account, step by step: what was kept is shown, or the plugin is
//! asked and its answer kept if nothing later was kept meanwhile.

use vstd::prelude::*;

use crate::account::{LoadedCredential, ProviderAccount};
use crate::fault::{admin, unavailable, ProviderAdminError, ProviderAdminErrorKind};
use crate::management::{managed_account, StoreReply};
use crate::quota::{
    allowed, is_blank_quota, is_quota, is_shown, kept_of, kept_state, observe, pick, show, stored,
    ProviderQuota, Quota, QuotaObservation,
};

verus! {

/// How far the question has come.
pub enum QuotaPhase {
    /// The account is read.
    ReadingAccount,
    /// What was kept is read.
    ReadingKept { account: ProviderAccount },
    /// The credential is read.
    LoadingCredential,
    /// The time is noted: answers are told apart by when they were asked for.
    TakingTime { credential: LoadedCredential },
    /// The plugin is asked.
    Asking { credential: LoadedCredential, observed_at_us: i64 },
    /// The answer is kept.
    Storing { observation: QuotaObservation },
    /// The question is answered, or it failed.
    Ended,
}

/// What happened.
pub enum QuotaEvent {
    AccountRead(StoreReply<Option<ProviderAccount>>),
    /// What was kept; nothing where the store failed.
    KeptRead(Option<Vec<QuotaObservation>>),
    CredentialLoaded(Result<LoadedCredential, ProviderAdminError>),
    TimeTaken(i64),
    /// `unusable` is what an answer that cannot be used is reported as.
    Answered { answer: Result<Quota, ProviderAdminError>, unusable: ProviderAdminError },
    /// Whether the answer took the place of what was expected; nothing where the store failed.
    Stored(Option<bool>),
}

/// What is done next.
pub enum QuotaAction {
    ReadAccount,
    ReadKept,
    LoadCredential,
    TakeTime,
    Ask,
    Store,
    Answer(ProviderQuota),
    Fail(ProviderAdminError),
}

/// A question for a quota.
pub struct QuotaQuery {
    pub kind: String,
    /// A new answer is wanted.
    pub refresh: bool,
    pub phase: QuotaPhase,
}

/// An event that can happen in a phase.
pub open spec fn can_happen(phase: QuotaPhase, event: QuotaEvent) -> bool {
    match phase {
        QuotaPhase::ReadingAccount => event is AccountRead,
        QuotaPhase::ReadingKept { .. } => event is KeptRead,
        QuotaPhase::LoadingCredential => event is CredentialLoaded,
        QuotaPhase::TakingTime { .. } => event is TimeTaken,
        QuotaPhase::Asking { .. } => event is Answered,
        QuotaPhase::Storing { .. } => event is Stored,
        QuotaPhase::Ended => false,
    }
}

/// The question fails.
pub open spec fn fails(phase: QuotaPhase, action: QuotaAction, kind: ProviderAdminErrorKind) -> bool {
    phase is Ended && action == QuotaAction::Fail(admin(kind))
}

/// What was observed is shown, where anything was.
pub open spec fn answers(
    observation: Option<QuotaObservation>,
    phase: QuotaPhase,
    action: QuotaAction,
) -> bool {
    match observation {
        None => phase is Ended && (action matches QuotaAction::Answer(shown) && is_blank_quota(
            shown,
        )),
        Some(observation) => match observation.quota {
            Some(quota) if is_quota(quota) => phase is Ended && (action
                matches QuotaAction::Answer(shown) && is_shown(
                quota,
                observation.observed_at_us,
                shown,
            )),
            _ => fails(phase, action, ProviderAdminErrorKind::Invalid),
        },
    }
}

/// What is kept of an answer.
pub open spec fn is_observed(
    observation: QuotaObservation,
    credential: LoadedCredential,
    quota: Quota,
    observed_at_us: i64,
) -> bool {
    &&& observation.account_id@ == credential.account.id@
    &&& observation.expected_revision == credential.account.revision
    &&& observation.quota == Some(quota)
    &&& observation.observed_at_us == observed_at_us
    &&& observation.state == kept_state(quota.access, observed_at_us)
}

/// What follows an event.
pub open spec fn follows(
    kind: Seq<char>,
    refresh: bool,
    before: QuotaPhase,
    event: QuotaEvent,
    phase: QuotaPhase,
    action: QuotaAction,
) -> bool {
    match (before, event) {
        (QuotaPhase::ReadingAccount, QuotaEvent::AccountRead(reply)) => match reply {
            StoreReply::Done(None) => fails(phase, action, ProviderAdminErrorKind::NotFound),
            StoreReply::Done(Some(account)) => if account.provider@ != kind {
                fails(phase, action, ProviderAdminErrorKind::Invalid)
            } else if refresh {
                phase is LoadingCredential && action is LoadCredential
            } else {
                phase == (QuotaPhase::ReadingKept { account }) && action is ReadKept
            },
            _ => fails(phase, action, ProviderAdminErrorKind::Unavailable),
        },
        (QuotaPhase::ReadingKept { account }, QuotaEvent::KeptRead(kept)) => match kept {
            Some(observations) => answers(kept_of(observations@, account), phase, action),
            None => fails(phase, action, ProviderAdminErrorKind::Unavailable),
        },
        (QuotaPhase::LoadingCredential, QuotaEvent::CredentialLoaded(loaded)) => match loaded {
            Ok(credential) => phase == (QuotaPhase::TakingTime { credential }) && action
                is TakeTime,
            Err(error) => phase is Ended && action == QuotaAction::Fail(error),
        },
        (QuotaPhase::TakingTime { credential }, QuotaEvent::TimeTaken(observed_at_us)) => phase == (
        QuotaPhase::Asking { credential, observed_at_us }) && action is Ask,
        (
            QuotaPhase::Asking { credential, observed_at_us },
            QuotaEvent::Answered { answer, unusable },
        ) => match answer {
            Ok(quota) => if is_quota(quota) {
                &&& phase matches QuotaPhase::Storing { observation } && is_observed(
                    observation,
                    credential,
                    quota,
                    observed_at_us,
                )
                &&& action is Store
            } else {
                phase is Ended && action == QuotaAction::Fail(unusable)
            },
            Err(error) => phase is Ended && action == QuotaAction::Fail(error),
        },
        (QuotaPhase::Storing { observation }, QuotaEvent::Stored(kept)) => match kept {
            Some(true) => answers(Some(observation), phase, action),
            Some(false) => fails(phase, action, ProviderAdminErrorKind::Conflict),
            None => fails(phase, action, ProviderAdminErrorKind::Unavailable),
        },
        _ => false,
    }
}

fn shown(observation: Option<QuotaObservation>) -> (next: (QuotaPhase, QuotaAction))
    ensures
        answers(observation, next.0, next.1),
{
    match show(observation) {
        Ok(quota) => (QuotaPhase::Ended, QuotaAction::Answer(quota)),
        Err(error) => (QuotaPhase::Ended, QuotaAction::Fail(error)),
    }
}

impl QuotaQuery {
    /// A question begins with the account. Where the provider reports no quotas there is none.
    pub fn new(quota_enabled: bool, kind: String, refresh: bool) -> (result: Result<
        (Self, QuotaAction),
        ProviderAdminError,
    >)
        ensures
            if quota_enabled {
                result matches Ok(begun) && begun.0.kind == kind && begun.0.refresh == refresh
                    && begun.0.phase is ReadingAccount && begun.1 is ReadAccount
            } else {
                result matches Err(error) && error == admin(ProviderAdminErrorKind::Unsupported)
            },
    {
        match allowed(quota_enabled) {
            Ok(()) => Ok(
                (
                    QuotaQuery { kind, refresh, phase: QuotaPhase::ReadingAccount },
                    QuotaAction::ReadAccount,
                ),
            ),
            Err(error) => Err(error),
        }
    }

    /// Takes in what happened, and says what is done next.
    pub fn step(self, event: QuotaEvent) -> (next: (Self, QuotaAction))
        requires
            can_happen(self.phase, event),
        ensures
            next.0.kind == self.kind,
            next.0.refresh == self.refresh,
            follows(self.kind@, self.refresh, self.phase, event, next.0.phase, next.1),
    {
        let kind = self.kind;
        let refresh = self.refresh;
        let (phase, action) = match (self.phase, event) {
            (QuotaPhase::ReadingAccount, QuotaEvent::AccountRead(reply)) => {
                match managed_account(reply, kind.as_str()) {
                    Ok(account) => if refresh {
                        (QuotaPhase::LoadingCredential, QuotaAction::LoadCredential)
                    } else {
                        (QuotaPhase::ReadingKept { account }, QuotaAction::ReadKept)
                    },
                    Err(error) => (QuotaPhase::Ended, QuotaAction::Fail(error)),
                }
            },
            (QuotaPhase::ReadingKept { account }, QuotaEvent::KeptRead(kept)) => match kept {
                Some(observations) => shown(pick(observations, &account)),
                None => (QuotaPhase::Ended, QuotaAction::Fail(unavailable())),
            },
            (QuotaPhase::LoadingCredential, QuotaEvent::CredentialLoaded(loaded)) => match loaded {
                Ok(credential) => (
                    QuotaPhase::TakingTime { credential },
                    QuotaAction::TakeTime,
                ),
                Err(error) => (QuotaPhase::Ended, QuotaAction::Fail(error)),
            },
            (QuotaPhase::TakingTime { credential }, QuotaEvent::TimeTaken(observed_at_us)) => (
                QuotaPhase::Asking { credential, observed_at_us },
                QuotaAction::Ask,
            ),
            (
                QuotaPhase::Asking { credential, observed_at_us },
                QuotaEvent::Answered { answer, unusable },
            ) => match answer {
                Ok(quota) => match observe(unusable, &credential.account, quota, observed_at_us) {
                    Ok(observation) => (QuotaPhase::Storing { observation }, QuotaAction::Store),
                    Err(error) => (QuotaPhase::Ended, QuotaAction::Fail(error)),
                },
                Err(error) => (QuotaPhase::Ended, QuotaAction::Fail(error)),
            },
            (QuotaPhase::Storing { observation }, QuotaEvent::Stored(kept)) => match kept {
                Some(updated) => match stored(updated) {
                    Ok(()) => shown(Some(observation)),
                    Err(error) => (QuotaPhase::Ended, QuotaAction::Fail(error)),
                },
                None => (QuotaPhase::Ended, QuotaAction::Fail(unavailable())),
            },
            _ => {
                assert(false);
                (QuotaPhase::Ended, QuotaAction::Fail(unavailable()))
            },
        };
        (QuotaQuery { kind, refresh, phase }, action)
    }
}

/// A question that was carried out up to some point, from its beginning.
pub open spec fn is_run(
    kind: Seq<char>,
    refresh: bool,
    phases: Seq<QuotaPhase>,
    events: Seq<QuotaEvent>,
    actions: Seq<QuotaAction>,
) -> bool {
    &&& phases.len() == events.len() + 1
    &&& actions.len() == events.len()
    &&& phases[0] is ReadingAccount
    &&& forall|i: int|
        0 <= i < events.len() ==> can_happen(phases[i], #[trigger] events[i]) && follows(
            kind,
            refresh,
            phases[i],
            events[i],
            phases[i + 1],
            actions[i],
        )
}

/// The phases that a question goes through in each of its two ways, and where they come from.
pub open spec fn is_traced(
    refresh: bool,
    phases: Seq<QuotaPhase>,
    events: Seq<QuotaEvent>,
    n: int,
) -> bool {
    match phases[n] {
        QuotaPhase::ReadingAccount | QuotaPhase::Ended => true,
        QuotaPhase::ReadingKept { .. } => !refresh,
        QuotaPhase::LoadingCredential | QuotaPhase::TakingTime { .. } => refresh,
        QuotaPhase::Asking { credential, observed_at_us } => refresh && n > 0 && events[n - 1]
            == QuotaEvent::TimeTaken(observed_at_us) && phases[n - 1] == (QuotaPhase::TakingTime {
            credential,
        }),
        QuotaPhase::Storing { observation } => refresh && n > 1 && is_time_before(
            phases,
            events,
            n - 1,
            observation,
        ),
    }
}

/// At a place the plugin answered with what is kept, and just before it was asked the time was taken
/// that it is kept with.
pub open spec fn is_time_before(
    phases: Seq<QuotaPhase>,
    events: Seq<QuotaEvent>,
    m: int,
    observation: QuotaObservation,
) -> bool {
    &&& 0 < m < events.len()
    &&& events[m - 1] == QuotaEvent::TimeTaken(observation.observed_at_us)
    &&& phases[m] matches QuotaPhase::Asking { credential, observed_at_us } && (events[m]
        matches QuotaEvent::Answered { answer: Ok(quota), .. } && is_observed(
        observation,
        credential,
        quota,
        observed_at_us,
    ))
}

proof fn lemma_traced(
    kind: Seq<char>,
    refresh: bool,
    phases: Seq<QuotaPhase>,
    events: Seq<QuotaEvent>,
    actions: Seq<QuotaAction>,
    n: int,
)
    requires
        is_run(kind, refresh, phases, events, actions),
        0 <= n <= events.len(),
    ensures
        is_traced(refresh, phases, events, n),
    decreases n,
{
    if n > 0 {
        lemma_traced(kind, refresh, phases, events, actions, n - 1);
        assert(can_happen(phases[n - 1], events[n - 1]));
        assert(follows(kind, refresh, phases[n - 1], events[n - 1], phases[n], actions[n - 1]));
        if phases[n] is Storing {
            assert(phases[n - 1] is Asking);
            assert(is_time_before(phases, events, n - 1, phases[n]->Storing_observation));
        }
    }
}

/// Who does not want a new answer is shown what was kept: the plugin is not asked, and nothing is
/// written.
pub proof fn kept_is_shown_without_asking(
    kind: Seq<char>,
    phases: Seq<QuotaPhase>,
    events: Seq<QuotaEvent>,
    actions: Seq<QuotaAction>,
    i: int,
)
    requires
        is_run(kind, false, phases, events, actions),
        0 <= i < events.len(),
    ensures
        !(actions[i] is Ask),
        !(actions[i] is Store),
{
    lemma_traced(kind, false, phases, events, actions, i);
    assert(can_happen(phases[i], events[i]));
    assert(follows(kind, false, phases[i], events[i], phases[i + 1], actions[i]));
}

/// Who wants a new answer is given one only after it was kept, under the account's version and with
/// the time that was taken before the plugin was asked.
pub proof fn new_answer_was_kept(
    kind: Seq<char>,
    phases: Seq<QuotaPhase>,
    events: Seq<QuotaEvent>,
    actions: Seq<QuotaAction>,
    shown: ProviderQuota,
)
    requires
        is_run(kind, true, phases, events, actions),
        events.len() > 0,
        actions.last() == QuotaAction::Answer(shown),
    ensures
        events.last() == QuotaEvent::Stored(Some(true)),
        phases[events.len() - 1] matches QuotaPhase::Storing { observation } && is_time_before(
            phases,
            events,
            events.len() - 2,
            observation,
        ),
{
    let n = events.len() - 1;
    lemma_traced(kind, true, phases, events, actions, n);
    assert(can_happen(phases[n], events[n]));
    assert(follows(kind, true, phases[n], events[n], phases[n + 1], actions[n]));
    assert(phases[n] is Storing);
    assert(is_time_before(phases, events, n - 1, phases[n]->Storing_observation));
}

/// An account of which nothing was kept is shown without a plan, a time, a window or a limit.
pub proof fn nothing_kept_is_blank(
    kind: Seq<char>,
    account: ProviderAccount,
    phase: QuotaPhase,
    action: QuotaAction,
    kept: Vec<QuotaObservation>,
)
    requires
        follows(
            kind,
            false,
            QuotaPhase::ReadingKept { account },
            QuotaEvent::KeptRead(Some(kept)),
            phase,
            action,
        ),
        kept_of(kept@, account) is None,
    ensures
        action matches QuotaAction::Answer(shown) && is_blank_quota(shown),
{
}

/// Each thing that goes wrong in a question is told as what it is: an account that is missing, of
/// another provider, or that somebody else changed, a store that failed, and an answer that cannot be
/// used.
pub proof fn failed_questions(
    kind: Seq<char>,
    refresh: bool,
    before: QuotaPhase,
    event: QuotaEvent,
    phase: QuotaPhase,
    action: QuotaAction,
)
    requires
        follows(kind, refresh, before, event, phase, action),
    ensures
        event matches QuotaEvent::AccountRead(StoreReply::Done(None)) ==> action
            == QuotaAction::Fail(ProviderAdminError { kind: ProviderAdminErrorKind::NotFound }),
        event matches QuotaEvent::AccountRead(StoreReply::Done(Some(account))) ==> (
        account.provider@ != kind ==> action == QuotaAction::Fail(
            ProviderAdminError { kind: ProviderAdminErrorKind::Invalid },
        )),
        event matches QuotaEvent::AccountRead(reply) ==> (!(reply is Done) ==> action
            == QuotaAction::Fail(ProviderAdminError { kind: ProviderAdminErrorKind::Unavailable })),
        event matches QuotaEvent::KeptRead(None) ==> action == QuotaAction::Fail(
            ProviderAdminError { kind: ProviderAdminErrorKind::Unavailable },
        ),
        event matches QuotaEvent::CredentialLoaded(Err(error)) ==> action == QuotaAction::Fail(error),
        event matches QuotaEvent::Answered { answer: Err(error), unusable } ==> action
            == QuotaAction::Fail(error),
        event matches QuotaEvent::Answered { answer: Ok(quota), unusable } ==> (!is_quota(quota)
            ==> action == QuotaAction::Fail(unusable)),
        event matches QuotaEvent::Stored(Some(false)) ==> action == QuotaAction::Fail(
            ProviderAdminError { kind: ProviderAdminErrorKind::Conflict },
        ),
        event matches QuotaEvent::Stored(None) ==> action == QuotaAction::Fail(
            ProviderAdminError { kind: ProviderAdminErrorKind::Unavailable },
        ),
        action is Fail || action is Answer <==> phase is Ended,
{
}

/// A question goes on as it should: an account is asked anew exactly if that is wanted, with its
/// credential, after the time was taken, and its answer is kept under its name and revision.
pub proof fn questions_go_on(
    kind: Seq<char>,
    refresh: bool,
    before: QuotaPhase,
    event: QuotaEvent,
    phase: QuotaPhase,
    action: QuotaAction,
)
    requires
        follows(kind, refresh, before, event, phase, action),
    ensures
        event matches QuotaEvent::AccountRead(StoreReply::Done(Some(account))) ==> (
        account.provider@ == kind && refresh ==> action is LoadCredential && phase
            is LoadingCredential),
        event matches QuotaEvent::AccountRead(StoreReply::Done(Some(account))) ==> (
        account.provider@ == kind && !refresh ==> action is ReadKept && phase == (
        QuotaPhase::ReadingKept { account })),
        event matches QuotaEvent::CredentialLoaded(Ok(credential)) ==> action is TakeTime && phase
            == (QuotaPhase::TakingTime { credential }),
        event matches QuotaEvent::TimeTaken(at) ==> action is Ask && (phase
            matches QuotaPhase::Asking { credential, observed_at_us } && observed_at_us == at),
        event matches QuotaEvent::Answered { answer: Ok(quota), unusable } ==> (is_quota(quota) ==> (
        before matches QuotaPhase::Asking { credential, observed_at_us } && action is Store && (phase
            matches QuotaPhase::Storing { observation } && observation.account_id@
            == credential.account.id@ && observation.expected_revision
            == credential.account.revision && observation.quota == Some(quota)
            && observation.observed_at_us == observed_at_us && (observation.state is Exhausted
            <==> quota.access is Exhausted)))),
        event matches QuotaEvent::Stored(Some(true)) ==> (before matches QuotaPhase::Storing {
            observation,
        } && (observation.quota is Some && is_quota(observation.quota->0) ==> (action
            matches QuotaAction::Answer(shown) && is_shown(
            observation.quota->0,
            observation.observed_at_us,
            shown,
        )))),
{
}

} // verus!
