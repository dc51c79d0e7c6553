//! The question to an account for its models, step by step: what is kept is looked at first unless a
//! new answer is wanted, and an answer is published only if nothing became invalid meanwhile.

use std::sync::Arc;
use vstd::prelude::*;

use crate::account::{
    is_known, is_same_identity, CredentialFacts, LoadedCredential,
    ProviderAccount,
};
use crate::catalog::account::{
    answered, begin, credential_loaded, is_usable, rechecked, saved, DiscoveredModels,
    DiscoveryStep,
};
use crate::catalog::cache::{CachedModels, Publication};
use crate::catalog::{AccountModels, ModelCatalog};
use crate::fault::{
    admin, unavailable, AdminErrorKind, ProviderAdminError, ProviderAdminErrorKind,
};
use crate::management::{map_account_save_error, save_failure, StoreReply};

verus! {

/// What is asked, and what for.
pub struct DiscoveryRequest {
    pub account: ProviderAccount,
    /// A new answer is wanted.
    pub refresh: bool,
    pub publication: Publication,
    /// For how long an answer is kept.
    pub ttl_seconds: u32,
}

/// How far the question has come.
pub enum DiscoveryPhase {
    /// What is kept is read.
    ReadingCache,
    /// It is waited for others who ask the same account.
    Locking,
    /// What is kept is read again: somebody else may have asked meanwhile.
    ReadingCacheAgain,
    /// It is noted how often accounts became invalid.
    ReadingToken,
    /// The credential is read.
    LoadingCredential { token: u64 },
    /// The plugin is asked.
    Asking { token: u64, credential: LoadedCredential },
    /// What the plugin found out is saved.
    Saving,
    /// The account is read after that.
    RereadingSaved,
    /// The account is read once more.
    Rechecking { token: u64, models: AccountModels },
    /// The answer is published.
    Publishing,
    /// The question is answered, or it failed.
    Ended,
}

/// What happened.
pub enum DiscoveryEvent {
    CacheRead(Option<Arc<CachedModels>>),
    Locked(Result<(), ProviderAdminError>),
    TokenRead(u64),
    CredentialLoaded(Result<LoadedCredential, ProviderAdminError>),
    /// `unusable` is what an answer that cannot be used is reported as.
    Answered {
        answer: Result<DiscoveredModels, ProviderAdminError>,
        unusable: ProviderAdminError,
    },
    Saved(Result<(), AdminErrorKind>),
    AccountRead(StoreReply<Option<ProviderAccount>>),
    Published(Result<Arc<CachedModels>, ProviderAdminError>),
    TimedOut,
}

/// What is done next.
pub enum DiscoveryAction {
    ReadCache,
    Lock,
    ReadToken,
    LoadCredential,
    Ask,
    Save(CredentialFacts),
    ReadAccount,
    Publish {
        account: ProviderAccount,
        models: AccountModels,
        ttl_seconds: u32,
        token: u64,
        publication: Publication,
    },
    /// The answer is what was kept.
    AnswerCached(Arc<CachedModels>),
    /// The answer is what was published.
    Answer(Arc<CachedModels>),
    Fail(ProviderAdminError),
}

/// A question to an account.
pub struct Discovery {
    pub request: DiscoveryRequest,
    pub phase: DiscoveryPhase,
}

/// An event that can happen in a phase. What is kept for an account, and what is published, is that of
/// the account.
pub open spec fn can_happen(
    request: DiscoveryRequest,
    phase: DiscoveryPhase,
    event: DiscoveryEvent,
) -> bool {
    match phase {
        DiscoveryPhase::Ended => false,
        _ => event is TimedOut || match phase {
            DiscoveryPhase::ReadingCache | DiscoveryPhase::ReadingCacheAgain => event
                matches DiscoveryEvent::CacheRead(cached) && (cached matches Some(kept)
                ==> is_same_identity(kept.account, request.account)),
            DiscoveryPhase::Locking => event is Locked,
            DiscoveryPhase::ReadingToken => event is TokenRead,
            DiscoveryPhase::LoadingCredential { .. } => event is CredentialLoaded,
            DiscoveryPhase::Asking { .. } => event is Answered,
            DiscoveryPhase::Saving => event is Saved,
            DiscoveryPhase::RereadingSaved => event is AccountRead,
            DiscoveryPhase::Rechecking { .. } => event is AccountRead,
            DiscoveryPhase::Publishing => event matches DiscoveryEvent::Published(published) && (
            published matches Ok(entry) ==> is_same_identity(entry.account, request.account)),
            DiscoveryPhase::Ended => false,
        },
    }
}

/// The question fails.
pub open spec fn fails(
    phase: DiscoveryPhase,
    action: DiscoveryAction,
    error: ProviderAdminError,
) -> bool {
    phase is Ended && action == DiscoveryAction::Fail(error)
}

/// What follows when the plugin answered.
pub open spec fn after_answered(
    catalog: ModelCatalog,
    token: u64,
    credential: LoadedCredential,
    answer: Result<DiscoveredModels, ProviderAdminError>,
    unusable: ProviderAdminError,
    phase: DiscoveryPhase,
    action: DiscoveryAction,
) -> bool {
    match answer {
        Err(error) => fails(phase, action, error),
        Ok(found) => if !is_usable(catalog, found.catalog) {
            fails(phase, action, unusable)
        } else {
            match found.prepared_account_facts {
                Some(facts) if !is_known(credential, facts) => phase is Saving && action
                    == DiscoveryAction::Save(facts),
                _ => phase == (DiscoveryPhase::Rechecking { token, models: found.catalog })
                    && action is ReadAccount,
            }
        },
    }
}

/// What follows an event.
pub open spec fn follows(
    request: DiscoveryRequest,
    catalog: ModelCatalog,
    before: DiscoveryPhase,
    event: DiscoveryEvent,
    phase: DiscoveryPhase,
    action: DiscoveryAction,
) -> bool {
    match (before, event) {
        (_, DiscoveryEvent::TimedOut) => fails(
            phase,
            action,
            admin(ProviderAdminErrorKind::Unavailable),
        ),
        (DiscoveryPhase::ReadingCache, DiscoveryEvent::CacheRead(cached)) => match cached {
            Some(kept) if !request.refresh => phase is Ended && action
                == DiscoveryAction::AnswerCached(kept),
            _ => phase is Locking && action is Lock,
        },
        (DiscoveryPhase::Locking, DiscoveryEvent::Locked(locked)) => match locked {
            Err(error) => fails(phase, action, error),
            Ok(()) => if request.refresh {
                phase is ReadingToken && action is ReadToken
            } else {
                phase is ReadingCacheAgain && action is ReadCache
            },
        },
        (DiscoveryPhase::ReadingCacheAgain, DiscoveryEvent::CacheRead(cached)) => match cached {
            Some(kept) if !request.refresh => phase is Ended && action
                == DiscoveryAction::AnswerCached(kept),
            _ => phase is ReadingToken && action is ReadToken,
        },
        (DiscoveryPhase::ReadingToken, DiscoveryEvent::TokenRead(token)) => phase == (
        DiscoveryPhase::LoadingCredential { token }) && action is LoadCredential,
        (DiscoveryPhase::LoadingCredential { token }, DiscoveryEvent::CredentialLoaded(loaded)) => {
            match loaded {
                Err(error) => fails(phase, action, error),
                Ok(credential) => if is_same_identity(request.account, credential.account) {
                    phase == (DiscoveryPhase::Asking { token, credential }) && action is Ask
                } else {
                    fails(phase, action, admin(ProviderAdminErrorKind::Conflict))
                },
            }
        },
        (
            DiscoveryPhase::Asking { token, credential },
            DiscoveryEvent::Answered { answer, unusable },
        ) => after_answered(catalog, token, credential, answer, unusable, phase, action),
        (DiscoveryPhase::Saving, DiscoveryEvent::Saved(kept)) => match kept {
            Ok(()) => phase is RereadingSaved && action is ReadAccount,
            Err(kind) => fails(phase, action, admin(save_failure(kind))),
        },
        (DiscoveryPhase::RereadingSaved, DiscoveryEvent::AccountRead(reply)) => fails(
            phase,
            action,
            admin(
                match reply {
                    StoreReply::Done(_) => ProviderAdminErrorKind::Conflict,
                    _ => ProviderAdminErrorKind::Unavailable,
                },
            ),
        ),
        (DiscoveryPhase::Rechecking { token, models }, DiscoveryEvent::AccountRead(reply)) => {
            match reply {
                StoreReply::Done(Some(current)) if is_same_identity(request.account, current) => {
                    phase is Publishing && action == (DiscoveryAction::Publish {
                        account: current,
                        models,
                        ttl_seconds: request.ttl_seconds,
                        token,
                        publication: request.publication,
                    })
                },
                StoreReply::Done(_) => fails(
                    phase,
                    action,
                    admin(ProviderAdminErrorKind::Conflict),
                ),
                _ => fails(phase, action, admin(ProviderAdminErrorKind::Unavailable)),
            }
        },
        (DiscoveryPhase::Publishing, DiscoveryEvent::Published(published)) => match published {
            Ok(entry) => phase is Ended && action == DiscoveryAction::Answer(entry),
            Err(error) => fails(phase, action, error),
        },
        _ => false,
    }
}

/// How a question begins.
pub open spec fn begins(
    catalog: ModelCatalog,
    account: ProviderAccount,
    kind: Seq<char>,
    refresh: bool,
    publication: Publication,
    result: Result<(Discovery, DiscoveryAction), ProviderAdminError>,
) -> bool {
    match catalog.discovery {
        Some(discovery) if account.provider@ == kind => {
            &&& result matches Ok(begun)
            &&& begun.0.request == (DiscoveryRequest {
                account,
                refresh,
                publication,
                ttl_seconds: discovery.cache_ttl_seconds,
            })
            &&& if refresh {
                begun.0.phase is Locking && begun.1 is Lock
            } else {
                begun.0.phase is ReadingCache && begun.1 is ReadCache
            }
        },
        _ => result matches Err(error) && error == admin(ProviderAdminErrorKind::Invalid),
    }
}

impl Discovery {
    /// A question begins with what is kept, unless a new answer is wanted. An account of another
    /// provider is not asked, and none is where accounts are not asked at all.
    pub fn new(
        catalog: &ModelCatalog,
        account: ProviderAccount,
        kind: &str,
        refresh: bool,
        publication: Publication,
    ) -> (result: Result<(Self, DiscoveryAction), ProviderAdminError>)
        ensures
            begins(*catalog, account, kind@, refresh, publication, result),
    {
        let ttl_seconds = match begin(catalog, &account, kind) {
            Ok(ttl_seconds) => ttl_seconds,
            Err(error) => return Err(error),
        };
        let request = DiscoveryRequest { account, refresh, publication, ttl_seconds };
        Ok(
            if refresh {
                (Discovery { request, phase: DiscoveryPhase::Locking }, DiscoveryAction::Lock)
            } else {
                (
                    Discovery { request, phase: DiscoveryPhase::ReadingCache },
                    DiscoveryAction::ReadCache,
                )
            },
        )
    }

    /// Takes in what happened, and says what is done next.
    pub fn step(self, catalog: &ModelCatalog, event: DiscoveryEvent) -> (next: (
        Self,
        DiscoveryAction,
    ))
        requires
            can_happen(self.request, self.phase, event),
        ensures
            next.0.request == self.request,
            follows(self.request, *catalog, self.phase, event, next.0.phase, next.1),
    {
        let request = self.request;
        let (phase, action) = match (self.phase, event) {
            (_, DiscoveryEvent::TimedOut) => (
                DiscoveryPhase::Ended,
                DiscoveryAction::Fail(unavailable()),
            ),
            (DiscoveryPhase::ReadingCache, DiscoveryEvent::CacheRead(cached)) => match cached {
                Some(kept) if !request.refresh => (
                    DiscoveryPhase::Ended,
                    DiscoveryAction::AnswerCached(kept),
                ),
                _ => (DiscoveryPhase::Locking, DiscoveryAction::Lock),
            },
            (DiscoveryPhase::Locking, DiscoveryEvent::Locked(locked)) => match locked {
                Err(error) => (DiscoveryPhase::Ended, DiscoveryAction::Fail(error)),
                Ok(()) => if request.refresh {
                    (DiscoveryPhase::ReadingToken, DiscoveryAction::ReadToken)
                } else {
                    (DiscoveryPhase::ReadingCacheAgain, DiscoveryAction::ReadCache)
                },
            },
            (DiscoveryPhase::ReadingCacheAgain, DiscoveryEvent::CacheRead(cached)) => match cached {
                Some(kept) if !request.refresh => (
                    DiscoveryPhase::Ended,
                    DiscoveryAction::AnswerCached(kept),
                ),
                _ => (DiscoveryPhase::ReadingToken, DiscoveryAction::ReadToken),
            },
            (DiscoveryPhase::ReadingToken, DiscoveryEvent::TokenRead(token)) => (
                DiscoveryPhase::LoadingCredential { token },
                DiscoveryAction::LoadCredential,
            ),
            (
                DiscoveryPhase::LoadingCredential { token },
                DiscoveryEvent::CredentialLoaded(loaded),
            ) => match loaded {
                Err(error) => (DiscoveryPhase::Ended, DiscoveryAction::Fail(error)),
                Ok(credential) => match credential_loaded(&request.account, &credential) {
                    Ok(()) => (
                        DiscoveryPhase::Asking { token, credential },
                        DiscoveryAction::Ask,
                    ),
                    Err(error) => (DiscoveryPhase::Ended, DiscoveryAction::Fail(error)),
                },
            },
            (
                DiscoveryPhase::Asking { token, credential },
                DiscoveryEvent::Answered { answer, unusable },
            ) => match answer {
                Err(error) => (DiscoveryPhase::Ended, DiscoveryAction::Fail(error)),
                Ok(found) => match answered(catalog, unusable, &credential, found) {
                    Ok(DiscoveryStep::Save(facts)) => (
                        DiscoveryPhase::Saving,
                        DiscoveryAction::Save(facts),
                    ),
                    Ok(DiscoveryStep::Recheck(models)) => (
                        DiscoveryPhase::Rechecking { token, models },
                        DiscoveryAction::ReadAccount,
                    ),
                    Err(error) => (DiscoveryPhase::Ended, DiscoveryAction::Fail(error)),
                },
            },
            (DiscoveryPhase::Saving, DiscoveryEvent::Saved(kept)) => match kept {
                Ok(()) => (DiscoveryPhase::RereadingSaved, DiscoveryAction::ReadAccount),
                Err(kind) => (
                    DiscoveryPhase::Ended,
                    DiscoveryAction::Fail(map_account_save_error(kind)),
                ),
            },
            (DiscoveryPhase::RereadingSaved, DiscoveryEvent::AccountRead(reply)) => (
                DiscoveryPhase::Ended,
                DiscoveryAction::Fail(saved(&reply)),
            ),
            (DiscoveryPhase::Rechecking { token, models }, DiscoveryEvent::AccountRead(reply)) => {
                match rechecked(&request.account, reply) {
                    Ok(account) => (
                        DiscoveryPhase::Publishing,
                        DiscoveryAction::Publish {
                            account,
                            models,
                            ttl_seconds: request.ttl_seconds,
                            token,
                            publication: request.publication,
                        },
                    ),
                    Err(error) => (DiscoveryPhase::Ended, DiscoveryAction::Fail(error)),
                }
            },
            (DiscoveryPhase::Publishing, DiscoveryEvent::Published(published)) => match published {
                Ok(entry) => (DiscoveryPhase::Ended, DiscoveryAction::Answer(entry)),
                Err(error) => (DiscoveryPhase::Ended, DiscoveryAction::Fail(error)),
            },
            _ => {
                assert(false);
                (DiscoveryPhase::Ended, DiscoveryAction::Fail(unavailable()))
            },
        };
        (Discovery { request, phase }, action)
    }
}

/// Who wants a new answer is never given what was kept.
pub proof fn refresh_is_asked_anew(
    request: DiscoveryRequest,
    catalog: ModelCatalog,
    before: DiscoveryPhase,
    event: DiscoveryEvent,
    phase: DiscoveryPhase,
    action: DiscoveryAction,
)
    requires
        follows(request, catalog, before, event, phase, action),
        request.refresh,
    ensures
        !(action is AnswerCached),
        !(action is ReadCache),
{
}

/// Every answer is that of the account that was asked for, kept or new.
pub proof fn answered_for_the_account(
    request: DiscoveryRequest,
    catalog: ModelCatalog,
    before: DiscoveryPhase,
    event: DiscoveryEvent,
    phase: DiscoveryPhase,
    action: DiscoveryAction,
)
    requires
        can_happen(request, before, event),
        follows(request, catalog, before, event, phase, action),
    ensures
        action matches DiscoveryAction::AnswerCached(entry) ==> is_same_identity(
            entry.account,
            request.account,
        ),
        action matches DiscoveryAction::Answer(entry) ==> is_same_identity(
            entry.account,
            request.account,
        ),
        action matches DiscoveryAction::Publish { account, .. } ==> is_same_identity(
            request.account,
            account,
        ),
{
}

/// A question that was carried out up to some point, from its beginning.
pub open spec fn is_run(
    request: DiscoveryRequest,
    catalog: ModelCatalog,
    phases: Seq<DiscoveryPhase>,
    events: Seq<DiscoveryEvent>,
    actions: Seq<DiscoveryAction>,
) -> bool {
    &&& phases.len() == events.len() + 1
    &&& actions.len() == events.len()
    &&& if request.refresh {
        phases[0] is Locking
    } else {
        phases[0] is ReadingCache
    }
    &&& forall|i: int|
        0 <= i < events.len() ==> can_happen(request, phases[i], #[trigger] events[i]) && follows(
            request,
            catalog,
            phases[i],
            events[i],
            phases[i + 1],
            actions[i],
        )
}

/// The number was read at a place.
pub open spec fn is_token_at(events: Seq<DiscoveryEvent>, k: int, token: u64) -> bool {
    0 <= k < events.len() && events[k] == DiscoveryEvent::TokenRead(token)
}

/// The plugin answered at a place, with models that can be used, and had found out nothing new about
/// the credential that it was asked with.
pub open spec fn is_answer_at(
    request: DiscoveryRequest,
    catalog: ModelCatalog,
    phases: Seq<DiscoveryPhase>,
    events: Seq<DiscoveryEvent>,
    m: int,
    models: AccountModels,
) -> bool {
    &&& 0 <= m < events.len()
    &&& phases[m] matches DiscoveryPhase::Asking { credential, .. } && is_same_identity(
        request.account,
        credential.account,
    ) && (events[m] matches DiscoveryEvent::Answered { answer: Ok(found), .. } && found.catalog
        == models && is_usable(catalog, models) && (found.prepared_account_facts matches Some(facts)
        ==> is_known(credential, facts)))
}

/// What a phase of a run holds comes from where it should.
pub open spec fn is_traced(
    request: DiscoveryRequest,
    catalog: ModelCatalog,
    phases: Seq<DiscoveryPhase>,
    events: Seq<DiscoveryEvent>,
    n: int,
) -> bool {
    match phases[n] {
        DiscoveryPhase::LoadingCredential { token } => exists|k: int|
            k < n && #[trigger] is_token_at(events, k, token),
        DiscoveryPhase::Asking { token, credential } => is_same_identity(
            request.account,
            credential.account,
        ) && exists|k: int| k < n && #[trigger] is_token_at(events, k, token),
        DiscoveryPhase::Rechecking { token, models } => exists|k: int, m: int|
            k < m < n && #[trigger] is_token_at(events, k, token) && #[trigger] is_answer_at(
                request,
                catalog,
                phases,
                events,
                m,
                models,
            ),
        _ => true,
    }
}

proof fn lemma_traced(
    request: DiscoveryRequest,
    catalog: ModelCatalog,
    phases: Seq<DiscoveryPhase>,
    events: Seq<DiscoveryEvent>,
    actions: Seq<DiscoveryAction>,
    n: int,
)
    requires
        is_run(request, catalog, phases, events, actions),
        0 <= n <= events.len(),
    ensures
        is_traced(request, catalog, phases, events, n),
    decreases n,
{
    if n > 0 {
        lemma_traced(request, catalog, phases, events, actions, n - 1);
        let event = events[n - 1];
        assert(can_happen(request, phases[n - 1], event));
        assert(follows(request, catalog, phases[n - 1], event, phases[n], actions[n - 1]));
        match phases[n] {
            DiscoveryPhase::LoadingCredential { token } => {
                assert(is_token_at(events, n - 1, token));
            },
            DiscoveryPhase::Asking { token, credential } => {
                let k = choose|k: int| k < n - 1 && #[trigger] is_token_at(events, k, token);
                assert(is_token_at(events, k, token));
            },
            DiscoveryPhase::Rechecking { token, models } => {
                let k = choose|k: int| k < n - 1 && #[trigger] is_token_at(events, k, token);
                assert(is_token_at(events, k, token));
                assert(is_answer_at(request, catalog, phases, events, n - 1, models));
            },
            _ => {},
        }
    }
}

/// What is published is what the plugin answered for the account's credential, with nothing new found
/// out about it, and the number that is published with was read before the plugin was asked: what
/// became invalid since then keeps it from being published.
pub proof fn published_as_of_before_the_question(
    request: DiscoveryRequest,
    catalog: ModelCatalog,
    phases: Seq<DiscoveryPhase>,
    events: Seq<DiscoveryEvent>,
    actions: Seq<DiscoveryAction>,
    account: ProviderAccount,
    models: AccountModels,
    ttl_seconds: u32,
    token: u64,
    publication: Publication,
)
    requires
        is_run(request, catalog, phases, events, actions),
        events.len() > 0,
        actions.last() == (DiscoveryAction::Publish {
            account,
            models,
            ttl_seconds,
            token,
            publication,
        }),
    ensures
        is_same_identity(request.account, account),
        ttl_seconds == request.ttl_seconds,
        publication == request.publication,
        exists|k: int, m: int|
            k < m && #[trigger] is_token_at(events, k, token) && #[trigger] is_answer_at(
                request,
                catalog,
                phases,
                events,
                m,
                models,
            ),
{
    let n = events.len() - 1;
    lemma_traced(request, catalog, phases, events, actions, n);
    assert(can_happen(request, phases[n], events[n]));
    assert(follows(request, catalog, phases[n], events[n], phases[n + 1], actions[n]));
    assert(phases[n] is Rechecking);
    let (k, m) = choose|k: int, m: int|
        k < m < n && #[trigger] is_token_at(events, k, token) && #[trigger] is_answer_at(
            request,
            catalog,
            phases,
            events,
            m,
            models,
        );
    assert(is_token_at(events, k, token));
}

/// A new answer was published just before it is given, for the account as it was read again once the
/// plugin had answered.
pub proof fn new_answer_was_published(
    request: DiscoveryRequest,
    catalog: ModelCatalog,
    phases: Seq<DiscoveryPhase>,
    events: Seq<DiscoveryEvent>,
    actions: Seq<DiscoveryAction>,
    entry: Arc<CachedModels>,
)
    requires
        is_run(request, catalog, phases, events, actions),
        events.len() > 0,
        actions.last() == DiscoveryAction::Answer(entry),
    ensures
        events.last() == DiscoveryEvent::Published(Ok(entry)),
        is_same_identity(entry.account, request.account),
        events.len() > 1,
        actions[events.len() - 2] matches DiscoveryAction::Publish { account, .. } && events[
        events.len() - 2] == DiscoveryEvent::AccountRead(StoreReply::Done(Some(account))),
{
    let n = events.len() - 1;
    assert(can_happen(request, phases[n], events[n]));
    assert(follows(request, catalog, phases[n], events[n], phases[n + 1], actions[n]));
    assert(phases[n] is Publishing);
    assert(can_happen(request, phases[n - 1], events[n - 1]));
    assert(follows(request, catalog, phases[n - 1], events[n - 1], phases[n], actions[n - 1]));
}

/// The plugin found out more, at a place, about the credential that it was asked with.
pub open spec fn is_new_at(
    phases: Seq<DiscoveryPhase>,
    events: Seq<DiscoveryEvent>,
    m: int,
) -> bool {
    &&& 0 <= m < events.len()
    &&& phases[m] matches DiscoveryPhase::Asking { credential, .. } && (events[m]
        matches DiscoveryEvent::Answered { answer: Ok(found), .. } && (
    found.prepared_account_facts matches Some(facts) && !is_known(credential, facts)))
}

/// Models that were asked for with a credential that the plugin found out more about are never
/// published and never given: whatever happens then, the question can only fail.
pub proof fn new_facts_are_not_published(
    request: DiscoveryRequest,
    catalog: ModelCatalog,
    phases: Seq<DiscoveryPhase>,
    events: Seq<DiscoveryEvent>,
    actions: Seq<DiscoveryAction>,
    m: int,
    i: int,
)
    requires
        is_run(request, catalog, phases, events, actions),
        is_new_at(phases, events, m),
        m <= i < events.len(),
    ensures
        !(actions[i] is Publish),
        !(actions[i] is Answer),
        !(actions[i] is AnswerCached),
        phases[i + 1] is Saving || phases[i + 1] is RereadingSaved || phases[i + 1] is Ended,
    decreases i,
{
    assert(can_happen(request, phases[i], events[i]));
    assert(follows(request, catalog, phases[i], events[i], phases[i + 1], actions[i]));
    if i > m {
        new_facts_are_not_published(request, catalog, phases, events, actions, m, i - 1);
    }
}

/// An account is asked if and only if it is one of the provider's and accounts are asked at all. Who
/// wants a new answer waits for a turn at once; who does not looks at what is kept first.
pub proof fn begun_for_own_accounts(
    catalog: ModelCatalog,
    account: ProviderAccount,
    kind: Seq<char>,
    refresh: bool,
    publication: Publication,
    result: Result<(Discovery, DiscoveryAction), ProviderAdminError>,
)
    requires
        begins(catalog, account, kind, refresh, publication, result),
    ensures
        result is Ok <==> catalog.discovery is Some && account.provider@ == kind,
        result matches Err(error) ==> error.kind == ProviderAdminErrorKind::Invalid,
        result matches Ok(begun) ==> {
            &&& begun.0.request.account == account
            &&& begun.0.request.refresh == refresh
            &&& begun.0.request.publication == publication
            &&& catalog.discovery matches Some(discovery) && begun.0.request.ttl_seconds
                == discovery.cache_ttl_seconds
            &&& (begun.1 is Lock <==> refresh)
            &&& (begun.1 is ReadCache <==> !refresh)
        },
{
}

/// What is kept is given to whoever does not want a new answer, without the plugin being asked; where
/// nothing is kept, the question goes on, and it is looked up once more when the turn comes.
pub proof fn kept_is_given_at_once(
    request: DiscoveryRequest,
    catalog: ModelCatalog,
    before: DiscoveryPhase,
    cached: Option<Arc<CachedModels>>,
    phase: DiscoveryPhase,
    action: DiscoveryAction,
)
    requires
        before is ReadingCache || before is ReadingCacheAgain,
        follows(request, catalog, before, DiscoveryEvent::CacheRead(cached), phase, action),
        !request.refresh,
    ensures
        cached matches Some(kept) ==> action == DiscoveryAction::AnswerCached(kept),
        cached is None && before is ReadingCache ==> action is Lock && phase is Locking,
        cached is None && before is ReadingCacheAgain ==> action is ReadToken && phase is ReadingToken,
{
}

/// A question goes on with each step that succeeds, and ends with the failure of the step that fails.
/// It ends in no other way than with an answer or a failure.
pub proof fn question_goes_on(
    request: DiscoveryRequest,
    catalog: ModelCatalog,
    before: DiscoveryPhase,
    event: DiscoveryEvent,
    phase: DiscoveryPhase,
    action: DiscoveryAction,
)
    requires
        can_happen(request, before, event),
        follows(request, catalog, before, event, phase, action),
    ensures
        phase is Ended <==> action is AnswerCached || action is Answer || action is Fail,
        event is TimedOut ==> (action matches DiscoveryAction::Fail(error) && error.kind
            == ProviderAdminErrorKind::Unavailable),
        event matches DiscoveryEvent::Locked(Err(error)) ==> action == DiscoveryAction::Fail(error),
        event matches DiscoveryEvent::CredentialLoaded(Err(error)) ==> action
            == DiscoveryAction::Fail(error),
        event matches DiscoveryEvent::Answered { answer: Err(error), .. } ==> action
            == DiscoveryAction::Fail(error),
        event matches DiscoveryEvent::Published(Err(error)) ==> action == DiscoveryAction::Fail(
            error,
        ),
        event matches DiscoveryEvent::Locked(Ok(_)) ==> (action is ReadToken <==> request.refresh)
            && (action is ReadCache <==> !request.refresh),
        event matches DiscoveryEvent::TokenRead(token) ==> action is LoadCredential && phase
            == (DiscoveryPhase::LoadingCredential { token }),
        event matches DiscoveryEvent::CredentialLoaded(Ok(credential)) ==> (
        credential.account.revision == request.account.revision && credential.account.id@
            == request.account.id@ ==> (action is Ask || (action matches DiscoveryAction::Fail(error)
            && error.kind == ProviderAdminErrorKind::Conflict))),
        event matches DiscoveryEvent::CredentialLoaded(Ok(credential)) ==> (credential.account
            == request.account ==> (action is Ask && (phase matches DiscoveryPhase::Asking {
            credential: used,
            ..
        } && used == credential))),
        event matches DiscoveryEvent::CredentialLoaded(Ok(credential)) ==> (
        credential.account.revision != request.account.revision || credential.account.id@
            != request.account.id@ ==> (action matches DiscoveryAction::Fail(error) && error.kind
            == ProviderAdminErrorKind::Conflict)),
        event matches DiscoveryEvent::Saved(Ok(_)) ==> action is ReadAccount,
        event matches DiscoveryEvent::Saved(Err(_)) ==> action is Fail,
        event matches DiscoveryEvent::AccountRead(StoreReply::Done(Some(current))) ==> (before
            is Rechecking && current == request.account ==> (action
            matches DiscoveryAction::Publish { account, .. } && account == current)),
        event matches DiscoveryEvent::AccountRead(StoreReply::Done(Some(current))) ==> (
        current.revision != request.account.revision || before is RereadingSaved ==> (action
            matches DiscoveryAction::Fail(error) && error.kind
            == ProviderAdminErrorKind::Conflict)),
        event matches DiscoveryEvent::AccountRead(StoreReply::Done(None)) ==> (action
            matches DiscoveryAction::Fail(error) && error.kind
            == ProviderAdminErrorKind::Conflict),
        event matches DiscoveryEvent::AccountRead(reply) ==> (!(reply is Done) ==> (action
            matches DiscoveryAction::Fail(error) && error.kind
            == ProviderAdminErrorKind::Unavailable)),
        event matches DiscoveryEvent::Published(Ok(entry)) ==> action == DiscoveryAction::Answer(
            entry,
        ),
{
}

/// What the plugin found out is saved before anything else is done with its answer, and only if it is
/// new; otherwise the account is read once more, and what is published then is what was answered.
pub proof fn answer_is_used(
    request: DiscoveryRequest,
    catalog: ModelCatalog,
    token: u64,
    credential: LoadedCredential,
    found: DiscoveredModels,
    unusable: ProviderAdminError,
    phase: DiscoveryPhase,
    action: DiscoveryAction,
)
    requires
        follows(
            request,
            catalog,
            DiscoveryPhase::Asking { token, credential },
            DiscoveryEvent::Answered { answer: Ok(found), unusable },
            phase,
            action,
        ),
    ensures
        action matches DiscoveryAction::Fail(error) ==> error == unusable && !is_usable(
            catalog,
            found.catalog,
        ),
        is_usable(catalog, found.catalog) && found.prepared_account_facts is None ==> action
            is ReadAccount,
        action is ReadAccount ==> (phase matches DiscoveryPhase::Rechecking { token: kept, models }
            && kept == token && models == found.catalog),
        action matches DiscoveryAction::Save(facts) ==> found.prepared_account_facts == Some(facts),
        found.prepared_account_facts matches Some(facts) ==> (facts.name@ != credential.account.name@
            && is_usable(catalog, found.catalog) ==> action == DiscoveryAction::Save(facts)),
        action is Fail || action is ReadAccount || action is Save,
{
}

} // verus!
