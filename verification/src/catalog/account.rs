//! How an account is asked for its models, and which accounts have a model.

use vstd::prelude::*;

use crate::account::{
    identity_is_equivalence, is_known, is_same_identity, same_credential_facts, same_identity,
    CredentialFacts, LoadedCredential, ProviderAccount,
};
use crate::catalog::cache::CachedModels;
use crate::catalog::{
    catalog_error, compile, compile_fault, is_compiled, model_views, models_fault, validate,
    AccountModels, ModelCatalog, ModelDescriptor, ProviderModelCapabilities, MAX_MODELS,
};
use crate::fault::{
    admin, conflict, invalid, unavailable, unsent_error, ProviderAdminError,
    ProviderAdminErrorKind, ProviderError, ProviderErrorKind,
};
use crate::management::{ensure_provider, StoreReply};
use crate::sorted::SortedTable;

verus! {

/// How long an account may take to answer, in milliseconds.
pub const QUERY_TIMEOUT_MS: u64 = 10_000;

/// An account may be asked for its models: it belongs to the provider, and the provider's accounts
/// are asked. The result is how long the answer is kept, in seconds.
pub fn begin(catalog: &ModelCatalog, account: &ProviderAccount, kind: &str) -> (result: Result<
    u32,
    ProviderAdminError,
>)
    ensures
        result == match catalog.discovery {
            Some(discovery) if account.provider@ == kind@ => Ok::<u32, ProviderAdminError>(
                discovery.cache_ttl_seconds,
            ),
            _ => Err(admin(ProviderAdminErrorKind::Invalid)),
        },
{
    match ensure_provider(account.provider.as_str(), kind) {
        Ok(()) => {},
        Err(error) => return Err(error),
    }
    match catalog.discovery {
        Some(discovery) => Ok(discovery.cache_ttl_seconds),
        None => Err(invalid()),
    }
}

/// The credential that was loaded is that of the account as it was.
pub fn credential_loaded(account: &ProviderAccount, credential: &LoadedCredential) -> (result: Result<
    (),
    ProviderAdminError,
>)
    ensures
        result == (if is_same_identity(*account, credential.account) {
            Ok::<(), ProviderAdminError>(())
        } else {
            Err(admin(ProviderAdminErrorKind::Conflict))
        }),
{
    if same_identity(account, &credential.account) {
        Ok(())
    } else {
        Err(conflict())
    }
}

/// What an account answered: its models, and what the plugin found out about its credential.
pub struct DiscoveredModels {
    pub catalog: AccountModels,
    pub prepared_account_facts: Option<CredentialFacts>,
}

/// An answer that can be used.
pub open spec fn is_usable(catalog: ModelCatalog, answer: AccountModels) -> bool {
    models_fault(answer.models@) is None && catalog.account_directory(answer).dom().len()
        <= MAX_MODELS
}

/// What is done with an answer.
pub enum DiscoveryStep {
    /// The plugin found out something new: it is saved, and the models are asked for again with what
    /// was saved.
    Save(CredentialFacts),
    /// The account is read again; if it is still the same, the models are published.
    Recheck(AccountModels),
}

/// Takes the answer of an account. `unusable` is what an answer that cannot be used is reported as.
pub fn answered(
    catalog: &ModelCatalog,
    unusable: ProviderAdminError,
    credential: &LoadedCredential,
    answer: DiscoveredModels,
) -> (result: Result<DiscoveryStep, ProviderAdminError>)
    ensures
        if !is_usable(*catalog, answer.catalog) {
            result matches Err(error) && error == unusable
        } else {
            match answer.prepared_account_facts {
                Some(facts) if !is_known(*credential, facts) => result matches Ok(
                    DiscoveryStep::Save(found),
                ) && found == facts,
                _ => result matches Ok(DiscoveryStep::Recheck(models)) && models == answer.catalog,
            }
        },
{
    if validate(&answer.catalog.models).is_err() {
        return Err(unusable);
    }
    let directory = catalog.for_account(&answer.catalog);
    proof {
        directory.lemma_items();
        assert(crate::catalog::directory_view(directory).dom() =~= directory@.dom());
    }
    if directory.len() > MAX_MODELS {
        return Err(unusable);
    }
    match answer.prepared_account_facts {
        Some(facts) => if !same_credential_facts(credential, &facts) {
            return Ok(DiscoveryStep::Save(facts));
        },
        None => {},
    }
    Ok(DiscoveryStep::Recheck(answer.catalog))
}

/// What an asker is told after something new was saved: the models were asked for with what was on
/// record before, so that they are not published. `reply` is the account as it is now.
pub fn saved(reply: &StoreReply<Option<ProviderAccount>>) -> (error: ProviderAdminError)
    ensures
        error == (match reply {
            StoreReply::Done(_) => admin(ProviderAdminErrorKind::Conflict),
            _ => admin(ProviderAdminErrorKind::Unavailable),
        }),
{
    match reply {
        StoreReply::Done(_) => conflict(),
        _ => unavailable(),
    }
}

/// The account as it is now, if it is still the one that was asked.
pub fn rechecked(account: &ProviderAccount, reply: StoreReply<Option<ProviderAccount>>) -> (result:
    Result<ProviderAccount, ProviderAdminError>)
    ensures
        match reply {
            StoreReply::Done(Some(current)) if is_same_identity(*account, current) => result
                matches Ok(found) && found == current,
            StoreReply::Done(_) => result matches Err(error) && error == admin(
                ProviderAdminErrorKind::Conflict,
            ),
            _ => result matches Err(error) && error == admin(ProviderAdminErrorKind::Unavailable),
        },
{
    match reply {
        StoreReply::Done(Some(current)) => if same_identity(account, &current) {
            Ok(current)
        } else {
            Err(conflict())
        },
        StoreReply::Done(None) => Err(conflict()),
        _ => Err(unavailable()),
    }
}

/// Models that were asked for with one credential are published only for an account that still has
/// it: the account that is published is the one whose credential was used.
pub proof fn published_as_asked(
    account: ProviderAccount,
    credential: LoadedCredential,
    current: ProviderAccount,
)
    requires
        is_same_identity(account, credential.account),
        is_same_identity(account, current),
    ensures
        is_same_identity(credential.account, current),
        credential.account.revision == current.revision,
{
    identity_is_equivalence(account, credential.account, current);
}

/// A model, as people see it.
pub struct ProviderModel {
    pub id: String,
    pub name: String,
}

/// The models of an account, as people see them.
pub struct ProviderModels {
    pub models: Vec<ProviderModel>,
    pub observed_at_ms: Option<i64>,
}

/// Every model can be told to the engine.
pub open spec fn all_compile(models: Seq<ModelDescriptor>) -> bool {
    forall|i: int| 0 <= i < models.len() ==> compile_fault(#[trigger] models[i]) is None
}

/// Models as people see them: by name.
pub open spec fn are_shown(shown: Seq<ProviderModel>, models: Seq<ModelDescriptor>) -> bool {
    shown.len() == models.len() && forall|i: int|
        0 <= i < shown.len() ==> (#[trigger] shown[i]).id@ == models[i].id@ && shown[i].name@
            == models[i].id@
}

/// Several models, as people see them.
pub fn show(models: &Vec<ModelDescriptor>) -> (result: Result<
    Vec<ProviderModel>,
    ProviderAdminError,
>)
    ensures
        match result {
            Ok(shown) => all_compile(models@) && are_shown(shown@, models@),
            Err(error) => !all_compile(models@) && error == admin(ProviderAdminErrorKind::Invalid),
        },
{
    let mut shown: Vec<ProviderModel> = Vec::new();
    for i in 0..models.len()
        invariant
            shown@.len() == i,
            forall|j: int| 0 <= j < i ==> compile_fault(#[trigger] models@[j]) is None,
            forall|j: int|
                0 <= j < i ==> (#[trigger] shown@[j]).id@ == models@[j].id@ && shown@[j].name@
                    == models@[j].id@,
    {
        match compile(&models[i]) {
            Ok(compiled) => {
                let name = compiled.model.clone();
                shown.push(ProviderModel { id: compiled.model, name });
            },
            Err(_) => {
                assert(compile_fault(models@[i as int]) is Some);
                return Err(invalid());
            },
        }
    }
    Ok(shown)
}

/// The models of a directory, in order.
pub open spec fn listed(directory: SortedTable<ModelDescriptor>) -> Seq<ModelDescriptor> {
    Seq::new(directory.items().len(), |i: int| directory.items()[i].1)
}

/// Copies of the models of a directory, in order.
fn list(directory: &SortedTable<ModelDescriptor>) -> (models: Vec<ModelDescriptor>)
    ensures
        model_views(models@) == model_views(listed(*directory)),
{
    let mut models: Vec<ModelDescriptor> = Vec::new();
    let total = directory.len();
    for i in 0..total
        invariant
            total == directory.items().len(),
            models@.len() == i,
            forall|j: int| 0 <= j < i ==> (#[trigger] models@[j])@ == directory.items()[j].1@,
    {
        models.push(directory.at(i).1.copy());
    }
    assert(model_views(models@) =~= model_views(listed(*directory)));
    models
}

/// What people see of an account's models: what the account answered, or what is declared where
/// accounts are not asked.
pub fn account_models(catalog: &ModelCatalog, cached: Option<&CachedModels>) -> (result: Result<
    ProviderModels,
    ProviderAdminError,
>)
    ensures
        are_account_models(*catalog, cached, result),
{
    match cached {
        Some(cached) => {
            let directory = catalog.for_account(&cached.catalog);
            let models = list(&directory);
            proof {
                let named = listed(directory);
                assert(model_views(models@).len() == model_views(named).len());
                assert(models@.len() == named.len());
                assert forall|i: int| 0 <= i < models@.len() implies (#[trigger] models@[i])@
                    == named[i]@ && compile_fault(models@[i]) == compile_fault(named[i]) by {
                    assert(model_views(models@)[i] == model_views(named)[i]);
                }
                assert(all_compile(models@) == all_compile(named)) by {
                    if all_compile(models@) {
                        assert forall|i: int| 0 <= i < named.len() implies compile_fault(
                            #[trigger] named[i],
                        ) is None by {
                            assert(compile_fault(models@[i]) is None);
                        }
                    }
                    if all_compile(named) {
                        assert forall|i: int| 0 <= i < models@.len() implies compile_fault(
                            #[trigger] models@[i],
                        ) is None by {
                            assert(compile_fault(named[i]) is None);
                        }
                    }
                }
            }
            match show(&models) {
                Ok(shown) => {
                    assert(are_shown(shown@, listed(directory)));
                    Ok(
                        ProviderModels {
                            models: shown,
                            observed_at_ms: Some(cached.observed_at_ms),
                        },
                    )
                },
                Err(error) => Err(error),
            }
        },
        None => match show(&catalog.static_models) {
            Ok(shown) => Ok(ProviderModels { models: shown, observed_at_ms: None }),
            Err(error) => Err(error),
        },
    }
}

/// Whether an account can serve a model.
pub enum AccountChoice {
    /// If what it can do is what is asked for.
    Compare(ProviderModelCapabilities),
    /// If it may have models that it did not name.
    Unlisted { allowed: bool },
}

/// Whether an account that answered can serve a model.
pub fn choose_account(catalog: &ModelCatalog, answer: &AccountModels, model: &str) -> (result: Result<
    AccountChoice,
    ProviderAdminError,
>)
    ensures
        is_choice(*catalog, *answer, model@, result),
{
    match catalog.account_model(answer, model) {
        Some(found) => match compile(found) {
            Ok(compiled) => Ok(AccountChoice::Compare(compiled)),
            Err(_) => Err(invalid()),
        },
        None => Ok(AccountChoice::Unlisted { allowed: !answer.exhaustive }),
    }
}

/// What came of asking an account whether it can serve a model.
#[derive(Clone, Copy, Debug, PartialEq, Eq, Structural)]
pub enum AccountAnswer {
    Allowed,
    Refused,
    Failed,
}

/// The accounts that can serve a model, in their order. Each account's answer stands at its place.
pub open spec fn allowed_accounts(
    accounts: Seq<ProviderAccount>,
    answers: Seq<AccountAnswer>,
) -> Seq<ProviderAccount>
    decreases accounts.len(),
{
    if accounts.len() == 0 {
        Seq::empty()
    } else if answers[accounts.len() - 1] == AccountAnswer::Allowed {
        allowed_accounts(accounts.drop_last(), answers).push(accounts.last())
    } else {
        allowed_accounts(accounts.drop_last(), answers)
    }
}

/// Some account could not be asked.
pub open spec fn some_failed(answers: Seq<AccountAnswer>) -> bool {
    answers.contains(AccountAnswer::Failed)
}

/// Whoever can serve a model was asked.
pub proof fn allowed_were_asked(
    accounts: Seq<ProviderAccount>,
    answers: Seq<AccountAnswer>,
    account: ProviderAccount,
)
    requires
        allowed_accounts(accounts, answers).contains(account),
    ensures
        accounts.contains(account),
    decreases accounts.len(),
{
    if accounts.len() > 0 {
        let front = accounts.drop_last();
        let kept = allowed_accounts(accounts, answers);
        let k = choose|k: int| 0 <= k < kept.len() && kept[k] == account;
        if k < allowed_accounts(front, answers).len() {
            assert(allowed_accounts(front, answers)[k] == account);
            allowed_were_asked(front, answers, account);
            let j = choose|j: int| 0 <= j < front.len() && front[j] == account;
            assert(accounts[j] == account);
        } else {
            assert(accounts[accounts.len() - 1] == account);
        }
    }
}

/// The accounts that can serve a model. That none can is only said where all could be asked.
pub fn filter_model_accounts(accounts: Vec<ProviderAccount>, answers: &Vec<AccountAnswer>) -> (result:
    Result<Vec<ProviderAccount>, ProviderError>)
    requires
        answers@.len() == accounts@.len(),
    ensures
        is_filtered(accounts@, answers@, result),
{
    let mut eligible: Vec<ProviderAccount> = Vec::new();
    let mut failed = false;
    let mut rest = accounts;
    let total = rest.len();
    let mut i: usize = 0;
    assert(accounts@.take(0) =~= Seq::<ProviderAccount>::empty());
    while i < total
        invariant
            i <= total,
            total == accounts@.len(),
            total == answers@.len(),
            rest@ == accounts@.skip(i as int),
            eligible@ == allowed_accounts(accounts@.take(i as int), answers@),
            failed == exists|j: int| 0 <= j < i && #[trigger] answers@[j] == AccountAnswer::Failed,
        decreases total - i,
    {
        let ghost before = failed;
        let account = rest.remove(0);
        proof {
            assert(account == accounts@[i as int]);
            assert(rest@ =~= accounts@.skip(i + 1));
            assert(accounts@.take(i + 1).drop_last() =~= accounts@.take(i as int));
            assert(accounts@.take(i + 1).last() == account);
            if before {
                let j = choose|j: int|
                    0 <= j < i && #[trigger] answers@[j] == AccountAnswer::Failed;
                assert(answers@[j] == AccountAnswer::Failed);
            }
        }
        match answers[i] {
            AccountAnswer::Allowed => eligible.push(account),
            AccountAnswer::Refused => {},
            AccountAnswer::Failed => {
                failed = true;
                assert(answers@[i as int] == AccountAnswer::Failed);
            },
        }
        i = i + 1;
    }
    assert(accounts@.take(total as int) =~= accounts@);
    if failed && eligible.len() == 0 {
        return Err(catalog_error());
    }
    Ok(eligible)
}

/// An answer can be used exactly if its models are in order and the account has at most 4096 of them.
pub proof fn answers_in_order(catalog: ModelCatalog, answer: AccountModels)
    ensures
        is_usable(catalog, answer) <==> models_fault(answer.models@) is None
            && catalog.account_directory(answer).dom().len() <= 4096,
{
}

/// An account can serve a model exactly if it answered that it can, and the accounts keep their order.
pub proof fn allowed_at_their_places(
    accounts: Seq<ProviderAccount>,
    answers: Seq<AccountAnswer>,
    account: ProviderAccount,
)
    requires
        accounts.len() <= answers.len(),
    ensures
        allowed_accounts(accounts, answers).contains(account) <==> exists|i: int|
            0 <= i < accounts.len() && #[trigger] accounts[i] == account && answers[i] is Allowed,
        allowed_accounts(accounts, answers).len() <= accounts.len(),
        (forall|i: int| 0 <= i < accounts.len() ==> (#[trigger] answers[i]) is Allowed)
            ==> allowed_accounts(accounts, answers) == accounts,
    decreases accounts.len(),
{
    if accounts.len() > 0 {
        let front = accounts.drop_last();
        let last = accounts.len() - 1;
        let kept = allowed_accounts(front, answers);
        allowed_at_their_places(front, answers, account);
        assert(accounts[last] == accounts.last());
        assert(accounts =~= front.push(accounts.last()));
        assert(kept.push(accounts.last())[kept.len() as int] == accounts.last());
        if kept.contains(account) {
            let k = choose|k: int| 0 <= k < kept.len() && kept[k] == account;
            assert(kept.push(accounts.last())[k] == account);
            let i = choose|i: int|
                0 <= i < front.len() && #[trigger] front[i] == account && answers[i] is Allowed;
            assert(accounts[i] == account);
        }
        if allowed_accounts(accounts, answers).contains(account) && !kept.contains(account) {
            let k = choose|k: int|
                0 <= k < allowed_accounts(accounts, answers).len() && allowed_accounts(
                    accounts,
                    answers,
                )[k] == account;
            if k < kept.len() {
                assert(kept[k] == account);
            }
        }
        if exists|i: int|
            0 <= i < accounts.len() && #[trigger] accounts[i] == account && answers[i] is Allowed {
            let i = choose|i: int|
                0 <= i < accounts.len() && #[trigger] accounts[i] == account && answers[i]
                    is Allowed;
            if i < last {
                assert(front[i] == account);
            }
        }
    }
}

/// Models are shown to people by their names, one for one and in their order.
pub proof fn models_are_shown(shown: Seq<ProviderModel>, models: Seq<ModelDescriptor>, i: int)
    requires
        are_shown(shown, models),
        0 <= i < models.len(),
    ensures
        shown.len() == models.len(),
        shown[i].id@ == models[i].id@,
        shown[i].name@ == models[i].id@,
{
}

/// Whether an account may be asked for a model, by what it answered.
pub open spec fn is_choice(
    catalog: ModelCatalog,
    answer: AccountModels,
    model: Seq<char>,
    result: Result<AccountChoice, ProviderAdminError>,
) -> bool {
    match catalog.model_of_account(answer, model) {
        Some(found) => if compile_fault(found) is None {
            result matches Ok(AccountChoice::Compare(compiled)) && is_compiled(compiled, found@)
        } else {
            result matches Err(error) && error == admin(ProviderAdminErrorKind::Invalid)
        },
        None => result matches Ok(AccountChoice::Unlisted { allowed }) && allowed
            == !answer.exhaustive,
    }
}

/// Which accounts are left once they were asked for a model.
pub open spec fn is_filtered(
    accounts: Seq<ProviderAccount>,
    answers: Seq<AccountAnswer>,
    result: Result<Vec<ProviderAccount>, ProviderError>,
) -> bool {
    if some_failed(answers) && allowed_accounts(accounts, answers).len() == 0 {
        result matches Err(error) && error == unsent_error(
            ProviderErrorKind::ProviderInfrastructureUnavailable,
        )
    } else {
        result matches Ok(kept) && kept@ == allowed_accounts(accounts, answers)
    }
}

/// A model that an account lists is compared with what is asked for. One that it does not list is out
/// of the question if its list is complete, and may be tried if it is not.
pub proof fn unlisted_models_may_be_tried(
    catalog: ModelCatalog,
    answer: AccountModels,
    model: Seq<char>,
    result: Result<AccountChoice, ProviderAdminError>,
)
    requires
        models_fault(catalog.static_models@) is None,
        models_fault(answer.models@) is None,
        is_choice(catalog, answer, model, result),
    ensures
        result matches Ok(AccountChoice::Unlisted { allowed }) ==> !catalog.account_directory(
            answer,
        ).contains_key(model) && (allowed <==> !answer.exhaustive),
        result matches Ok(AccountChoice::Compare(compiled)) ==> catalog.account_directory(
            answer,
        ).contains_key(model) && is_compiled(compiled, catalog.account_directory(answer)[model]),
        !catalog.account_directory(answer).contains_key(model) ==> (result matches Ok(choice)
            && choice is Unlisted),
{
    crate::catalog::account_model_is_listed(catalog, answer, model);
}

/// The accounts that allow the model are left; that none is left is a failure only if some could not
/// be asked.
pub proof fn left_unless_refused(
    accounts: Seq<ProviderAccount>,
    answers: Seq<AccountAnswer>,
    result: Result<Vec<ProviderAccount>, ProviderError>,
    account: ProviderAccount,
)
    requires
        accounts.len() <= answers.len(),
        is_filtered(accounts, answers, result),
    ensures
        result matches Ok(kept) ==> (kept@.contains(account) <==> exists|i: int|
            0 <= i < accounts.len() && #[trigger] accounts[i] == account && answers[i] is Allowed),
        result is Err ==> answers.contains(AccountAnswer::Failed) && forall|i: int|
            0 <= i < accounts.len() ==> !((#[trigger] answers[i]) is Allowed),
        !answers.contains(AccountAnswer::Failed) ==> result is Ok,
        result matches Err(error) ==> error.send_state is NotSent && error.kind
            is ProviderInfrastructureUnavailable,
{
    allowed_at_their_places(accounts, answers, account);
    if result is Err {
        assert forall|i: int| 0 <= i < accounts.len() implies !((#[trigger] answers[i]) is Allowed) by {
            allowed_at_their_places(accounts, answers, accounts[i]);
            if answers[i] is Allowed {
                assert(allowed_accounts(accounts, answers).contains(accounts[i]));
            }
        }
    }
}

/// The models that are shown for an account: those that it answered with, or those that are declared.
pub open spec fn are_account_models(
    catalog: ModelCatalog,
    cached: Option<&CachedModels>,
    result: Result<ProviderModels, ProviderAdminError>,
) -> bool {
    match cached {
        Some(cached) => exists|directory: SortedTable<ModelDescriptor>|
            {
                &&& directory.well_formed()
                &&& #[trigger] crate::catalog::directory_view(directory)
                    == catalog.account_directory(cached.catalog)
                &&& match result {
                    Ok(shown) => all_compile(listed(directory)) && are_shown(
                        shown.models@,
                        listed(directory),
                    ) && shown.observed_at_ms == Some(cached.observed_at_ms),
                    Err(error) => !all_compile(listed(directory)) && error == admin(
                        ProviderAdminErrorKind::Invalid,
                    ),
                }
            },
        None => match result {
            Ok(shown) => all_compile(catalog.static_models@) && are_shown(
                shown.models@,
                catalog.static_models@,
            ) && shown.observed_at_ms is None,
            Err(error) => !all_compile(catalog.static_models@) && error == admin(
                ProviderAdminErrorKind::Invalid,
            ),
        },
    }
}

/// An account that answered is shown with the models that it has, and with the time at which it answered;
/// one that was not asked is shown with the models that are declared, in their order.
pub proof fn shown_for_the_account(
    catalog: ModelCatalog,
    cached: Option<&CachedModels>,
    shown: ProviderModels,
    id: Seq<char>,
)
    requires
        are_account_models(catalog, cached, Ok(shown)),
    ensures
        shown.observed_at_ms is Some <==> cached is Some,
        cached is Some ==> shown.observed_at_ms == Some(cached->0.observed_at_ms),
        cached is None ==> shown.models@.len() == catalog.static_models@.len() && forall|i: int|
            0 <= i < shown.models@.len() ==> (#[trigger] shown.models@[i]).id@
                == catalog.static_models@[i].id@,
        cached is Some ==> ((exists|i: int|
            0 <= i < shown.models@.len() && (#[trigger] shown.models@[i]).id@ == id)
            <==> catalog.account_directory(cached->0.catalog).contains_key(id)),
{
    match cached {
        Some(kept) => {
            let directory = choose|directory: SortedTable<ModelDescriptor>|
                {
                    &&& directory.well_formed()
                    &&& #[trigger] crate::catalog::directory_view(directory)
                        == catalog.account_directory(kept.catalog)
                    &&& all_compile(listed(directory)) && are_shown(
                        shown.models@,
                        listed(directory),
                    ) && shown.observed_at_ms == Some(kept.observed_at_ms)
                };
            let seen = crate::catalog::directory_view(directory);
            let items = directory.items();
            directory.lemma_items();
            if exists|i: int| 0 <= i < shown.models@.len() && (#[trigger] shown.models@[i]).id@ == id {
                let i = choose|i: int|
                    0 <= i < shown.models@.len() && (#[trigger] shown.models@[i]).id@ == id;
                models_are_shown(shown.models@, listed(directory), i);
                assert(listed(directory)[i] == items[i].1);
                assert(directory@.contains_key(items[i].0@));
                assert(seen.contains_key(items[i].0@));
                crate::catalog::account_directory_by_name(catalog, kept.catalog, items[i].0@);
                assert(seen[items[i].0@] == directory@[items[i].0@]@);
                assert(items[i].0@ == id);
            }
            if seen.contains_key(id) {
                assert(directory@.contains_key(id));
                let i = choose|i: int| 0 <= i < items.len() && (#[trigger] items[i]).0@ == id;
                crate::catalog::account_directory_by_name(catalog, kept.catalog, id);
                assert(seen[id] == directory@[id]@);
                assert(listed(directory)[i] == items[i].1);
                models_are_shown(shown.models@, listed(directory), i);
                assert(shown.models@[i].id@ == id);
            }
        },
        None => {
            assert forall|i: int| 0 <= i < shown.models@.len() implies (
            #[trigger] shown.models@[i]).id@ == catalog.static_models@[i].id@ by {
                models_are_shown(shown.models@, catalog.static_models@, i);
            }
        },
    }
}

} // verus!
