//! The choice of an account for a request: which accounts come into question, what is known of them,
//! which one is leased, and when the request waits or fails.

use vstd::prelude::*;

use crate::account::{LoadedCredential, ProviderAccount};
use crate::catalog::account::{
    allowed_accounts, allowed_were_asked, filter_model_accounts, some_failed, AccountAnswer,
};
use crate::catalog::directory::AccountStatus;
use crate::catalog::ModelCatalog;
use crate::fault::{
    infrastructure_unavailable, unsent_error, ProviderError, ProviderErrorKind, UpstreamSendState,
};
use crate::provider_ports::{AccountRuntimeSignals, ProviderSchedulingState};
use crate::rotation::LeaseReply;
use crate::table::entry;
use crate::text::{ascending, copy_texts, is_ascending, same, text_of, texts};

verus! {

/// What a request's scope says of an account.
#[derive(Clone, Copy, Debug, PartialEq, Eq, Structural)]
pub struct ScopeAnswer {
    pub allows: bool,
    /// What it says of the request's model, where the request has one.
    pub allows_model: Option<bool>,
}

/// An account of the store, and what the request's scope says of it, where the request has a scope.
pub struct ListedAccount {
    pub account: ProviderAccount,
    pub scope: Option<ScopeAnswer>,
    pub status: AccountStatus,
}

/// An account that comes into question: it belongs to the provider, it is the required one, if any,
/// and the request's scope, if any, allows it and the model.
pub open spec fn comes_into_question(
    listed: ListedAccount,
    kind: Seq<char>,
    required: Option<Seq<char>>,
) -> bool {
    &&& listed.account.provider@ == kind
    &&& required matches Some(id) ==> listed.account.id@ == id
    &&& listed.scope matches Some(scope) ==> scope.allows && scope.allows_model != Some(false)
}

/// The accounts that come into question, in their order.
pub open spec fn in_question(
    listed: Seq<ListedAccount>,
    kind: Seq<char>,
    required: Option<Seq<char>>,
) -> Seq<ListedAccount>
    decreases listed.len(),
{
    if listed.len() == 0 {
        Seq::empty()
    } else if comes_into_question(listed.last(), kind, required) {
        in_question(listed.drop_last(), kind, required).push(listed.last())
    } else {
        in_question(listed.drop_last(), kind, required)
    }
}

/// The name of the required account.
pub open spec fn required_name(required: Option<&str>) -> Option<Seq<char>> {
    match required {
        Some(id) => Some(id@),
        None => None,
    }
}

/// The accounts of the store that come into question. `listed` is nothing where the store could not
/// be read.
pub fn candidates(
    listed: Option<Vec<ListedAccount>>,
    kind: &str,
    required: Option<&str>,
) -> (result: Result<Vec<ListedAccount>, ProviderError>)
    ensures
        match listed {
            Some(all) => result matches Ok(kept) && kept@ == in_question(
                all@,
                kind@,
                required_name(required),
            ),
            None => result matches Err(error) && error == unsent_error(
                ProviderErrorKind::ProviderInfrastructureUnavailable,
            ),
        },
{
    let all = match listed {
        Some(all) => all,
        None => return Err(infrastructure_unavailable()),
    };
    let ghost every = all@;
    let mut kept: Vec<ListedAccount> = Vec::new();
    let mut rest = all;
    let total = rest.len();
    let mut i: usize = 0;
    assert(every.take(0) =~= Seq::<ListedAccount>::empty());
    while i < total
        invariant
            i <= total,
            total == every.len(),
            rest@ == every.skip(i as int),
            kept@ == in_question(every.take(i as int), kind@, required_name(required)),
        decreases total - i,
    {
        let next = rest.remove(0);
        proof {
            assert(next == every[i as int]);
            assert(rest@ =~= every.skip(i + 1));
            assert(every.take(i + 1).drop_last() =~= every.take(i as int));
            assert(every.take(i + 1).last() == next);
        }
        let wanted = match required {
            Some(id) => same(next.account.id.as_str(), id),
            None => true,
        };
        let allowed = match next.scope {
            Some(scope) => scope.allows && match scope.allows_model {
                Some(allows) => allows,
                None => true,
            },
            None => true,
        };
        if same(next.account.provider.as_str(), kind) && wanted && allowed {
            kept.push(next);
        }
        i = i + 1;
    }
    assert(every.take(total as int) =~= every);
    Ok(kept)
}

/// What is asked of the accounts before one of them is chosen.
pub enum ModelQuestion {
    /// Nothing: every account can serve the request.
    Skip(Vec<ListedAccount>),
    /// Whether they can serve the model, within a time in nanoseconds.
    Ask { accounts: Vec<ListedAccount>, within: u128 },
}

/// An account that is asked whether it can serve a model: one that can be used, or any one where the
/// request is a trial.
pub open spec fn is_asked(listed: ListedAccount, trial: bool) -> bool {
    trial || listed.status == AccountStatus::Normal
}

/// The accounts that are asked, in their order.
pub open spec fn asked(listed: Seq<ListedAccount>, trial: bool) -> Seq<ListedAccount>
    decreases listed.len(),
{
    if listed.len() == 0 {
        Seq::empty()
    } else if is_asked(listed.last(), trial) {
        asked(listed.drop_last(), trial).push(listed.last())
    } else {
        asked(listed.drop_last(), trial)
    }
}

/// Which accounts are asked whether they can serve a model. `left` is the time until the request's
/// deadline, where that is not over.
pub fn question(
    catalog: &ModelCatalog,
    accounts: Vec<ListedAccount>,
    with_model: bool,
    trial: bool,
    left: Option<u128>,
) -> (result: Result<ModelQuestion, ProviderError>)
    ensures
        if !with_model || !catalog.asks_accounts() {
            result matches Ok(ModelQuestion::Skip(kept)) && kept == accounts
        } else {
            match left {
                Some(left) => result matches Ok(ModelQuestion::Ask { accounts: kept, within })
                    && kept@ == asked(accounts@, trial) && within == left,
                None => result matches Err(error) && error == unsent_error(
                    ProviderErrorKind::Timeout,
                ),
            }
        },
{
    if !with_model || !catalog.discovers_accounts() {
        return Ok(ModelQuestion::Skip(accounts));
    }
    let within = match left {
        Some(left) => left,
        None => return Err(ProviderError::unsent(ProviderErrorKind::Timeout)),
    };
    let mut kept: Vec<ListedAccount> = Vec::new();
    let mut rest = accounts;
    let total = rest.len();
    let mut i: usize = 0;
    assert(accounts@.take(0) =~= Seq::<ListedAccount>::empty());
    while i < total
        invariant
            i <= total,
            total == accounts@.len(),
            rest@ == accounts@.skip(i as int),
            kept@ == asked(accounts@.take(i as int), trial),
        decreases total - i,
    {
        let next = rest.remove(0);
        proof {
            assert(next == accounts@[i as int]);
            assert(rest@ =~= accounts@.skip(i + 1));
            assert(accounts@.take(i + 1).drop_last() =~= accounts@.take(i as int));
            assert(accounts@.take(i + 1).last() == next);
        }
        if trial || next.status == AccountStatus::Normal {
            kept.push(next);
        }
        i = i + 1;
    }
    assert(accounts@.take(total as int) =~= accounts@);
    Ok(ModelQuestion::Ask { accounts: kept, within })
}

/// How the time for asking accounts ended.
#[derive(Clone, Copy, Debug, PartialEq, Eq, Structural)]
pub enum QuestionEnd {
    Answered,
    TimedOut,
    Cancelled,
}

/// What a question that did not end with answers means.
pub fn question_failure(end: QuestionEnd) -> (error: Option<ProviderError>)
    ensures
        error == (match end {
            QuestionEnd::Answered => None,
            QuestionEnd::TimedOut => Some(unsent_error(ProviderErrorKind::Timeout)),
            QuestionEnd::Cancelled => Some(unsent_error(ProviderErrorKind::Cancelled)),
        }),
{
    match end {
        QuestionEnd::Answered => None,
        QuestionEnd::TimedOut => Some(ProviderError::unsent(ProviderErrorKind::Timeout)),
        QuestionEnd::Cancelled => Some(ProviderError::unsent(ProviderErrorKind::Cancelled)),
    }
}

/// A time for which a credential is left alone.
pub struct Cooldown<R> {
    pub credential_revision: u64,
    pub rate_limit: R,
}

/// What was found out about an account: whether it is to be left alone, or nothing where that could
/// not be read.
pub struct AskedAccount<R> {
    pub account: ProviderAccount,
    pub cooldown: Option<Option<Cooldown<R>>>,
}

/// An account that can be chosen.
pub struct AccountCandidate<R> {
    pub account: ProviderAccount,
    pub signals: AccountRuntimeSignals,
    pub rate_limit: Option<R>,
}

/// Accounts with what was found out about them, which stands at their places.
pub open spec fn together<R>(
    accounts: Seq<ProviderAccount>,
    read: Seq<Option<Option<Cooldown<R>>>>,
) -> Seq<AskedAccount<R>> {
    Seq::new(
        accounts.len(),
        |i: int| AskedAccount { account: accounts[i], cooldown: read[i] },
    )
}

fn put_together<R>(
    accounts: Vec<ProviderAccount>,
    read: Vec<Option<Option<Cooldown<R>>>>,
) -> (all: Vec<AskedAccount<R>>)
    requires
        read@.len() == accounts@.len(),
    ensures
        all@ == together(accounts@, read@),
{
    let mut all: Vec<AskedAccount<R>> = Vec::new();
    let mut rest = accounts;
    let mut found = read;
    let total = rest.len();
    let mut i: usize = 0;
    while i < total
        invariant
            i <= total,
            total == accounts@.len(),
            total == read@.len(),
            rest@ == accounts@.skip(i as int),
            found@ == read@.skip(i as int),
            all@ == together(accounts@, read@).take(i as int),
        decreases total - i,
    {
        let account = rest.remove(0);
        let cooldown = found.remove(0);
        proof {
            assert(account == accounts@[i as int]);
            assert(cooldown == read@[i as int]);
            assert(rest@ =~= accounts@.skip(i + 1));
            assert(found@ =~= read@.skip(i + 1));
        }
        all.push(AskedAccount { account, cooldown });
        assert(all@ =~= together(accounts@, read@).take(i + 1));
        i = i + 1;
    }
    assert(all@ =~= together(accounts@, read@));
    all
}

/// All that is needed is known of an account.
pub open spec fn is_known<R>(asked: AskedAccount<R>, state: ProviderSchedulingState) -> bool {
    asked.cooldown is Some && entry(state.signals@, asked.account.id@) is Some
}

/// What is known of an account. A time out that was set for another version of the credential does
/// not count.
pub open spec fn candidate_of<R>(asked: AskedAccount<R>, state: ProviderSchedulingState) ->
    AccountCandidate<R> {
    AccountCandidate {
        account: asked.account,
        signals: entry(state.signals@, asked.account.id@)->0,
        rate_limit: match asked.cooldown->0 {
            Some(cooldown) => if cooldown.credential_revision == asked.account.revision {
                Some(cooldown.rate_limit)
            } else {
                None
            },
            None => None,
        },
    }
}

fn candidate<R>(asked: AskedAccount<R>, state: &ProviderSchedulingState) -> (result: Option<
    AccountCandidate<R>,
>)
    ensures
        result is Some == is_known(asked, *state),
        result matches Some(candidate) ==> candidate == candidate_of(asked, *state),
{
    let cooldown = match asked.cooldown {
        Some(cooldown) => cooldown,
        None => return None,
    };
    let signals = match state.signals(asked.account.id.as_str()) {
        Some(signals) => signals,
        None => return None,
    };
    let rate_limit = match cooldown {
        Some(found) => if found.credential_revision == asked.account.revision {
            Some(found.rate_limit)
        } else {
            None
        },
        None => None,
    };
    Some(AccountCandidate { account: asked.account, signals, rate_limit })
}

/// The accounts that can be chosen, with what is known of them. Nothing is chosen where something is
/// not known.
pub fn gather<R>(accounts: Vec<AskedAccount<R>>, state: &ProviderSchedulingState) -> (result: Result<
    Vec<AccountCandidate<R>>,
    ProviderError,
>)
    ensures
        if forall|i: int| 0 <= i < accounts@.len() ==> is_known(#[trigger] accounts@[i], *state) {
            result matches Ok(gathered) && gathered@ == Seq::new(
                accounts@.len(),
                |i: int| candidate_of(accounts@[i], *state),
            )
        } else {
            result matches Err(error) && error == unsent_error(
                ProviderErrorKind::ProviderInfrastructureUnavailable,
            )
        },
{
    let mut gathered: Vec<AccountCandidate<R>> = Vec::new();
    let mut rest = accounts;
    let total = rest.len();
    let mut i: usize = 0;
    while i < total
        invariant
            i <= total,
            total == accounts@.len(),
            rest@ == accounts@.skip(i as int),
            forall|k: int| 0 <= k < i ==> is_known(#[trigger] accounts@[k], *state),
            gathered@ == Seq::new(i as nat, |k: int| candidate_of(accounts@[k], *state)),
        decreases total - i,
    {
        let next = rest.remove(0);
        proof {
            assert(next == accounts@[i as int]);
            assert(rest@ =~= accounts@.skip(i + 1));
        }
        match candidate(next, state) {
            Some(found) => gathered.push(found),
            None => {
                assert(!is_known(accounts@[i as int], *state));
                return Err(infrastructure_unavailable());
            },
        }
        assert(gathered@ =~= Seq::new((i + 1) as nat, |k: int| candidate_of(accounts@[k], *state)));
        i = i + 1;
    }
    Ok(gathered)
}

/// What the request's policy answered when it was asked for an account.
#[derive(Clone, Copy, Debug, PartialEq, Eq, Structural)]
pub enum PolicyReply {
    /// The account at a place.
    Selected(usize),
    /// None of them.
    Nothing,
    /// An account was changed meanwhile.
    Stale,
    /// The request may have no account.
    Rejected,
    /// The policy failed.
    Fault,
}

/// What a round does after the policy answered.
pub enum RoundStep {
    /// Asks for a lease on the account at a place.
    Acquire(usize),
    /// Begins anew, with the accounts as they are now.
    Refresh,
    /// Ends without an account.
    End,
    Fail(ProviderError),
}

/// What a round does after it was told of a lease.
pub enum LeaseStep {
    /// Reads the credential.
    Load,
    /// Asks the policy for another account.
    ChooseAgain,
    Fail(ProviderError),
}

/// What a round does after a credential was read.
pub enum LoadStep {
    /// The request has its account.
    Done(LoadedCredential),
    /// Gives the lease back and begins anew.
    Refresh,
    Fail(ProviderError),
}

/// One round of choosing: the accounts that are not asked for, and those that the request could wait
/// for.
pub struct SelectionRound {
    pub excluded: Vec<String>,
    pub wait_for: Vec<String>,
}

/// The names of the accounts at the places that may not be tried yet.
pub open spec fn held_back<R>(accounts: Seq<AccountCandidate<R>>, may_try: Seq<bool>) -> Seq<
    Seq<char>,
>
    decreases accounts.len(),
{
    if accounts.len() == 0 {
        Seq::empty()
    } else if may_try[accounts.len() - 1] {
        held_back(accounts.drop_last(), may_try)
    } else {
        held_back(accounts.drop_last(), may_try).push(accounts.last().account.id@)
    }
}

/// A list of names with one more.
proof fn lemma_texts_pushed(names: Seq<String>, name: String)
    ensures
        texts(names.push(name)) == texts(names).push(name@),
{
    assert(texts(names.push(name)) =~= texts(names).push(name@));
}

/// What comes of a policy's answer.
pub fn chosen(reply: PolicyReply) -> (step: RoundStep)
    ensures
        step == (match reply {
            PolicyReply::Selected(place) => RoundStep::Acquire(place),
            PolicyReply::Nothing => RoundStep::End,
            PolicyReply::Stale => RoundStep::Refresh,
            PolicyReply::Rejected => RoundStep::Fail(
                unsent_error(ProviderErrorKind::RequestPolicyDenied),
            ),
            PolicyReply::Fault => RoundStep::Fail(unsent_error(ProviderErrorKind::Unavailable)),
        }),
{
    match reply {
        PolicyReply::Selected(place) => RoundStep::Acquire(place),
        PolicyReply::Nothing => RoundStep::End,
        PolicyReply::Stale => RoundStep::Refresh,
        PolicyReply::Rejected => RoundStep::Fail(
            ProviderError::unsent(ProviderErrorKind::RequestPolicyDenied),
        ),
        PolicyReply::Fault => RoundStep::Fail(ProviderError::unsent(ProviderErrorKind::Unavailable)),
    }
}

/// A credential is that of the account that was leased.
pub open spec fn is_leased(
    loaded: LoadedCredential,
    account: ProviderAccount,
    kind: Seq<char>,
) -> bool {
    &&& loaded.account.id@ == account.id@
    &&& loaded.account.provider@ == kind
    &&& loaded.account.revision == account.revision
}

/// What comes of reading a credential. `loaded` is nothing where it could not be read.
pub fn credential_loaded(
    loaded: Option<LoadedCredential>,
    account: &ProviderAccount,
    kind: &str,
) -> (step: LoadStep)
    ensures
        match loaded {
            Some(credential) => if is_leased(credential, *account, kind@) {
                step == LoadStep::Done(credential)
            } else {
                step is Refresh
            },
            None => step == LoadStep::Fail(
                unsent_error(ProviderErrorKind::ProviderInfrastructureUnavailable),
            ),
        },
{
    let credential = match loaded {
        Some(credential) => credential,
        None => return LoadStep::Fail(infrastructure_unavailable()),
    };
    if same(credential.account.id.as_str(), account.id.as_str()) && same(
        credential.account.provider.as_str(),
        kind,
    ) && credential.account.revision == account.revision {
        LoadStep::Done(credential)
    } else {
        LoadStep::Refresh
    }
}

impl SelectionRound {
    /// Begins a round. `excluded` are the accounts that the request must not use, `waits` those that
    /// are busy or slowed down, and `may_try` says of each candidate whether it is the request's turn.
    pub fn begin<R>(
        excluded: Vec<String>,
        waits: Vec<String>,
        accounts: &Vec<AccountCandidate<R>>,
        may_try: &Vec<bool>,
    ) -> (round: Self)
        requires
            may_try@.len() == accounts@.len(),
        ensures
            texts(round.excluded@) == texts(excluded@) + held_back(accounts@, may_try@),
            texts(round.wait_for@) == texts(waits@) + held_back(accounts@, may_try@),
    {
        let ghost barred = texts(excluded@);
        let ghost awaited = texts(waits@);
        let mut round = SelectionRound { excluded, wait_for: waits };
        assert(accounts@.take(0) =~= Seq::<AccountCandidate<R>>::empty());
        assert(barred + held_back(accounts@.take(0), may_try@) =~= barred);
        assert(awaited + held_back(accounts@.take(0), may_try@) =~= awaited);
        for i in 0..accounts.len()
            invariant
                may_try@.len() == accounts@.len(),
                texts(round.excluded@) == barred + held_back(accounts@.take(i as int), may_try@),
                texts(round.wait_for@) == awaited + held_back(accounts@.take(i as int), may_try@),
        {
            let ghost front = held_back(accounts@.take(i as int), may_try@);
            let ghost id = accounts@[i as int].account.id@;
            proof {
                assert(accounts@.take(i + 1).drop_last() =~= accounts@.take(i as int));
                assert(accounts@.take(i + 1).last() == accounts@[i as int]);
                assert((barred + front).push(id) =~= barred + front.push(id));
                assert((awaited + front).push(id) =~= awaited + front.push(id));
            }
            if !may_try[i] {
                let name = accounts[i].account.id.as_str();
                let first = name.to_owned();
                let second = name.to_owned();
                proof {
                    lemma_texts_pushed(round.excluded@, first);
                    lemma_texts_pushed(round.wait_for@, second);
                }
                round.excluded.push(first);
                round.wait_for.push(second);
            }
        }
        assert(accounts@.take(accounts@.len() as int) =~= accounts@);
        round
    }

    /// What comes of asking for a lease on an account: one that is busy is not asked for again in
    /// this round, and the request could wait for it.
    pub fn leased(&mut self, account: &ProviderAccount, reply: LeaseReply) -> (step: LeaseStep)
        ensures
            step == (match reply {
                LeaseReply::Acquired => LeaseStep::Load,
                LeaseReply::Busy => LeaseStep::ChooseAgain,
                LeaseReply::Failed => LeaseStep::Fail(
                    unsent_error(ProviderErrorKind::ProviderInfrastructureUnavailable),
                ),
            }),
            if reply is Busy {
                texts(final(self).excluded@) == texts(old(self).excluded@).push(account.id@)
                    && texts(final(self).wait_for@) == texts(old(self).wait_for@).push(account.id@)
            } else {
                *final(self) == *old(self)
            },
    {
        match reply {
            LeaseReply::Acquired => LeaseStep::Load,
            LeaseReply::Failed => LeaseStep::Fail(infrastructure_unavailable()),
            LeaseReply::Busy => {
                let first = account.id.as_str().to_owned();
                let second = account.id.as_str().to_owned();
                proof {
                    lemma_texts_pushed(self.excluded@, first);
                    lemma_texts_pushed(self.wait_for@, second);
                }
                self.excluded.push(first);
                self.wait_for.push(second);
                LeaseStep::ChooseAgain
            },
        }
    }

    /// How a round without an account ends: the request waits for accounts, each named once, in
    /// order; or it fails, because there is nothing to wait for or because nobody may wait.
    pub fn end(self, max_waiting: usize) -> (result: Result<Vec<String>, ProviderError>)
        ensures
            if self.wait_for@.len() == 0 {
                result matches Err(error) && error == unsent_error(
                    ProviderErrorKind::NoEligibleAccount,
                )
            } else if max_waiting == 0 {
                result matches Err(error) && error == unsent_error(
                    ProviderErrorKind::AccountCapacityUnavailable,
                )
            } else {
                result matches Ok(names) && is_ascending(texts(names@)) && texts(names@).to_set()
                    == texts(self.wait_for@).to_set()
            },
    {
        if self.wait_for.len() == 0 {
            return Err(ProviderError::unsent(ProviderErrorKind::NoEligibleAccount));
        }
        if max_waiting == 0 {
            return Err(ProviderError::unsent(ProviderErrorKind::AccountCapacityUnavailable));
        }
        Ok(ascending(&self.wait_for))
    }
}

/// The accounts of a list, without what is known of them.
pub open spec fn accounts_of(listed: Seq<ListedAccount>) -> Seq<ProviderAccount> {
    listed.map_values(|one: ListedAccount| one.account)
}

fn only_accounts(listed: Vec<ListedAccount>) -> (accounts: Vec<ProviderAccount>)
    ensures
        accounts@ == accounts_of(listed@),
{
    let mut accounts: Vec<ProviderAccount> = Vec::new();
    let mut rest = listed;
    let total = rest.len();
    let mut i: usize = 0;
    while i < total
        invariant
            i <= total,
            total == listed@.len(),
            rest@ == listed@.skip(i as int),
            accounts@ == accounts_of(listed@.take(i as int)),
        decreases total - i,
    {
        let next = rest.remove(0);
        proof {
            assert(next == listed@[i as int]);
            assert(rest@ =~= listed@.skip(i + 1));
        }
        accounts.push(next.account);
        assert(accounts@ =~= accounts_of(listed@.take(i + 1)));
        i = i + 1;
    }
    assert(listed@.take(total as int) =~= listed@);
    accounts
}

/// What a request needs of an account.
pub struct SelectionRequest {
    pub kind: String,
    pub required: Option<String>,
    /// The request is for a model.
    pub with_model: bool,
    /// The request tries an account out.
    pub trial: bool,
    /// The accounts that the request must not use.
    pub excluded: Vec<String>,
    /// How many requests may wait for an account.
    pub max_waiting: usize,
}

/// How far the choice of an account has come.
pub enum SelectionPhase<R> {
    /// The accounts are listed.
    Listing,
    /// The accounts are asked whether they can serve the model.
    Asking { listed: Vec<ListedAccount> },
    /// What is known of the use of the accounts is read.
    LoadingState { accounts: Vec<ProviderAccount> },
    /// The times for which the accounts are left alone are read.
    ReadingCooldowns { accounts: Vec<ProviderAccount>, state: ProviderSchedulingState },
    /// It is found out which accounts are busy and whose turn it is.
    Weighing { known: Vec<AccountCandidate<R>>, cursor: u64 },
    /// The policy is asked for an account.
    Choosing { known: Vec<AccountCandidate<R>>, cursor: u64, round: SelectionRound },
    /// A lease on an account is asked for.
    Leasing { known: Vec<AccountCandidate<R>>, cursor: u64, round: SelectionRound, place: usize },
    /// The credential of an account is read.
    Loading { known: Vec<AccountCandidate<R>>, place: usize },
    /// The request waits.
    Waiting,
    /// The choice is made, or it failed.
    Ended,
}

/// What happened. What was found out about several accounts stands at their places.
pub enum SelectionEvent<R> {
    Listed { accounts: Option<Vec<ListedAccount>>, left: Option<u128> },
    Asked { end: QuestionEnd, answers: Vec<AccountAnswer> },
    StateLoaded(Option<ProviderSchedulingState>),
    CooldownsRead(Vec<Option<Option<Cooldown<R>>>>),
    Weighed { waits: Vec<String>, may_try: Vec<bool> },
    Chosen(PolicyReply),
    Leased(LeaseReply),
    Loaded(Option<LoadedCredential>),
    /// The wait is over; where it failed, with a kind of failure.
    Waited(Option<ProviderErrorKind>),
}

/// What is done next.
pub enum SelectionAction {
    List,
    /// Ask the accounts whether they can serve the model, within a time in nanoseconds.
    Ask { within: u128 },
    LoadState,
    ReadCooldowns,
    Weigh,
    Choose,
    Acquire(usize),
    Load(usize),
    Wait(Vec<String>),
    Done(LoadedCredential),
    Fail(ProviderError),
}

/// The choice of an account for a request.
pub struct AccountSelection<R> {
    pub request: SelectionRequest,
    pub phase: SelectionPhase<R>,
}

/// An event that can happen in a phase.
pub open spec fn can_happen<R>(phase: SelectionPhase<R>, event: SelectionEvent<R>) -> bool {
    match phase {
        SelectionPhase::Listing => event is Listed,
        SelectionPhase::Asking { listed } => event matches SelectionEvent::Asked { end, answers }
            && (end == QuestionEnd::Answered ==> answers@.len() == listed@.len()),
        SelectionPhase::LoadingState { .. } => event is StateLoaded,
        SelectionPhase::ReadingCooldowns { accounts, .. } => event
            matches SelectionEvent::CooldownsRead(read) && read@.len() == accounts@.len(),
        SelectionPhase::Weighing { known, .. } => event matches SelectionEvent::Weighed {
            may_try,
            ..
        } && may_try@.len() == known@.len(),
        SelectionPhase::Choosing { known, .. } => event matches SelectionEvent::Chosen(reply) && (
        reply matches PolicyReply::Selected(place) ==> place < known@.len()),
        SelectionPhase::Leasing { known, place, .. } => event is Leased && place < known@.len(),
        SelectionPhase::Loading { known, place, .. } => event is Loaded && place < known@.len(),
        SelectionPhase::Waiting => event is Waited,
        SelectionPhase::Ended => false,
    }
}

/// A request fails with a kind of failure.
pub open spec fn fails<R>(
    phase: SelectionPhase<R>,
    action: SelectionAction,
    kind: ProviderErrorKind,
) -> bool {
    phase is Ended && action == SelectionAction::Fail(unsent_error(kind))
}

/// The accounts are listed anew.
pub open spec fn begins_anew<R>(phase: SelectionPhase<R>, action: SelectionAction) -> bool {
    phase is Listing && action is List
}

/// What follows when the accounts were listed.
pub open spec fn after_listed<R>(
    request: SelectionRequest,
    catalog: ModelCatalog,
    accounts: Option<Vec<ListedAccount>>,
    left: Option<u128>,
    phase: SelectionPhase<R>,
    action: SelectionAction,
) -> bool {
    match accounts {
        None => fails(phase, action, ProviderErrorKind::ProviderInfrastructureUnavailable),
        Some(listed) => {
            let kept = in_question(listed@, request.kind@, text_of(request.required));
            if !request.with_model || !catalog.asks_accounts() {
                &&& phase matches SelectionPhase::LoadingState { accounts: next } && next@
                    == accounts_of(kept)
                &&& action is LoadState
            } else {
                match left {
                    None => fails(phase, action, ProviderErrorKind::Timeout),
                    Some(left) => {
                        &&& phase matches SelectionPhase::Asking { listed: next } && next@ == asked(
                            kept,
                            request.trial,
                        )
                        &&& action == SelectionAction::Ask { within: left }
                    },
                }
            }
        },
    }
}

/// What follows when the accounts were asked whether they can serve the model.
pub open spec fn after_asked<R>(
    accounts: Seq<ProviderAccount>,
    end: QuestionEnd,
    answers: Seq<AccountAnswer>,
    phase: SelectionPhase<R>,
    action: SelectionAction,
) -> bool {
    match end {
        QuestionEnd::TimedOut => fails(phase, action, ProviderErrorKind::Timeout),
        QuestionEnd::Cancelled => fails(phase, action, ProviderErrorKind::Cancelled),
        QuestionEnd::Answered => if some_failed(answers) && allowed_accounts(
            accounts,
            answers,
        ).len() == 0 {
            fails(phase, action, ProviderErrorKind::ProviderInfrastructureUnavailable)
        } else {
            &&& phase matches SelectionPhase::LoadingState { accounts: next } && next@
                == allowed_accounts(accounts, answers)
            &&& action is LoadState
        },
    }
}

/// What follows when the policy answered.
pub open spec fn after_chosen<R>(
    known: Vec<AccountCandidate<R>>,
    cursor: u64,
    round: SelectionRound,
    reply: PolicyReply,
    max_waiting: usize,
    phase: SelectionPhase<R>,
    action: SelectionAction,
) -> bool {
    match reply {
        PolicyReply::Selected(place) => {
            &&& phase == SelectionPhase::Leasing { known, cursor, round, place }
            &&& action == SelectionAction::Acquire(place)
        },
        PolicyReply::Stale => begins_anew(phase, action),
        PolicyReply::Rejected => fails(phase, action, ProviderErrorKind::RequestPolicyDenied),
        PolicyReply::Fault => fails(phase, action, ProviderErrorKind::Unavailable),
        PolicyReply::Nothing => if round.wait_for@.len() == 0 {
            fails(phase, action, ProviderErrorKind::NoEligibleAccount)
        } else if max_waiting == 0 {
            fails(phase, action, ProviderErrorKind::AccountCapacityUnavailable)
        } else {
            &&& phase is Waiting
            &&& action matches SelectionAction::Wait(names) && is_ascending(texts(names@)) && texts(
                names@,
            ).to_set() == texts(round.wait_for@).to_set()
        },
    }
}

/// What follows when it was known whether an account can be leased.
pub open spec fn after_leased<R>(
    known: Vec<AccountCandidate<R>>,
    cursor: u64,
    round: SelectionRound,
    place: usize,
    reply: LeaseReply,
    phase: SelectionPhase<R>,
    action: SelectionAction,
) -> bool {
    let id = known@[place as int].account.id@;
    match reply {
        LeaseReply::Acquired => {
            &&& phase == SelectionPhase::Loading { known, place }
            &&& action == SelectionAction::Load(place)
        },
        LeaseReply::Busy => {
            &&& phase matches SelectionPhase::Choosing { known: same, cursor: turn, round: next }
                && same == known && turn == cursor && texts(next.excluded@) == texts(
                round.excluded@,
            ).push(id) && texts(next.wait_for@) == texts(round.wait_for@).push(id)
            &&& action is Choose
        },
        LeaseReply::Failed => fails(
            phase,
            action,
            ProviderErrorKind::ProviderInfrastructureUnavailable,
        ),
    }
}

/// What follows an event.
pub open spec fn follows<R>(
    request: SelectionRequest,
    catalog: ModelCatalog,
    before: SelectionPhase<R>,
    event: SelectionEvent<R>,
    phase: SelectionPhase<R>,
    action: SelectionAction,
) -> bool {
    match (before, event) {
        (SelectionPhase::Listing, SelectionEvent::Listed { accounts, left }) => after_listed(
            request,
            catalog,
            accounts,
            left,
            phase,
            action,
        ),
        (SelectionPhase::Asking { listed }, SelectionEvent::Asked { end, answers }) => after_asked(
            accounts_of(listed@),
            end,
            answers@,
            phase,
            action,
        ),
        (SelectionPhase::LoadingState { accounts }, SelectionEvent::StateLoaded(loaded)) => {
            match loaded {
                Some(state) => {
                    &&& phase == SelectionPhase::<R>::ReadingCooldowns { accounts, state }
                    &&& action is ReadCooldowns
                },
                None => fails(phase, action, ProviderErrorKind::ProviderInfrastructureUnavailable),
            }
        },
        (
            SelectionPhase::ReadingCooldowns { accounts, state },
            SelectionEvent::CooldownsRead(read),
        ) => {
            let all = together(accounts@, read@);
            if forall|i: int| 0 <= i < all.len() ==> is_known(#[trigger] all[i], state) {
                &&& phase matches SelectionPhase::Weighing { known, cursor } && known@ == Seq::new(
                    all.len(),
                    |i: int| candidate_of(all[i], state),
                ) && cursor == state.round_robin_cursor
                &&& action is Weigh
            } else {
                fails(phase, action, ProviderErrorKind::ProviderInfrastructureUnavailable)
            }
        },
        (SelectionPhase::Weighing { known, cursor }, SelectionEvent::Weighed { waits, may_try }) => {
            &&& phase matches SelectionPhase::Choosing { known: same, cursor: turn, round } && same
                == known && turn == cursor && texts(round.excluded@) == texts(request.excluded@)
                + held_back(known@, may_try@) && texts(round.wait_for@) == texts(waits@)
                + held_back(known@, may_try@)
            &&& action is Choose
        },
        (SelectionPhase::Choosing { known, cursor, round }, SelectionEvent::Chosen(reply)) => {
            after_chosen(known, cursor, round, reply, request.max_waiting, phase, action)
        },
        (
            SelectionPhase::Leasing { known, cursor, round, place },
            SelectionEvent::Leased(reply),
        ) => after_leased(known, cursor, round, place, reply, phase, action),
        (SelectionPhase::Loading { known, place }, SelectionEvent::Loaded(loaded)) => match loaded {
            Some(credential) => if is_leased(
                credential,
                known@[place as int].account,
                request.kind@,
            ) {
                phase is Ended && action == SelectionAction::Done(credential)
            } else {
                begins_anew(phase, action)
            },
            None => fails(phase, action, ProviderErrorKind::ProviderInfrastructureUnavailable),
        },
        (SelectionPhase::Waiting, SelectionEvent::Waited(failed)) => match failed {
            Some(kind) => fails(phase, action, kind),
            None => begins_anew(phase, action),
        },
        _ => false,
    }
}

/// What the policy is told when it is asked for an account.
pub struct SelectionContext {
    pub excluded: Vec<String>,
    /// The account that is taken before all others.
    pub preferred: Option<String>,
    /// The preferred account is taken whatever its weight.
    pub preferred_overrides_weight: bool,
    pub round_robin_cursor: u64,
    /// The account is taken whether it can be used or not.
    pub bypass_eligibility: bool,
}

/// What the policy is told of a request.
pub open spec fn is_context_of(
    context: SelectionContext,
    request: SelectionRequest,
    excluded: Seq<String>,
    cursor: u64,
) -> bool {
    &&& context.excluded@ == excluded
    &&& context.preferred == request.required
    &&& context.preferred_overrides_weight
    &&& context.round_robin_cursor == cursor
    &&& context.bypass_eligibility == request.trial
}

fn context_of(request: &SelectionRequest, excluded: &Vec<String>, cursor: u64) -> (context:
    SelectionContext)
    ensures
        is_context_of(context, *request, excluded@, cursor),
{
    SelectionContext {
        excluded: copy_texts(excluded),
        preferred: request.required.clone(),
        preferred_overrides_weight: true,
        round_robin_cursor: cursor,
        bypass_eligibility: request.trial,
    }
}

impl<R> AccountSelection<R> {
    /// What the policy is told, while the accounts are weighed and while one is chosen.
    pub fn context(&self) -> (context: Option<SelectionContext>)
        ensures
            match self.phase {
                SelectionPhase::Weighing { cursor, .. } => context matches Some(told)
                    && is_context_of(told, self.request, self.request.excluded@, cursor),
                SelectionPhase::Choosing { cursor, round, .. } => context matches Some(told)
                    && is_context_of(told, self.request, round.excluded@, cursor),
                _ => context is None,
            },
    {
        match &self.phase {
            SelectionPhase::Weighing { cursor, .. } => Some(
                context_of(&self.request, &self.request.excluded, *cursor),
            ),
            SelectionPhase::Choosing { cursor, round, .. } => Some(
                context_of(&self.request, &round.excluded, *cursor),
            ),
            _ => None,
        }
    }

    /// The accounts are listed first.
    pub fn new(request: SelectionRequest) -> (begun: (Self, SelectionAction))
        ensures
            begun.0.request == request,
            begins_anew(begun.0.phase, begun.1),
    {
        (AccountSelection { request, phase: SelectionPhase::Listing }, SelectionAction::List)
    }

    /// Takes in what happened, and says what is done next.
    pub fn step(self, catalog: &ModelCatalog, event: SelectionEvent<R>) -> (next: (
        Self,
        SelectionAction,
    ))
        requires
            can_happen(self.phase, event),
        ensures
            next.0.request == self.request,
            follows(self.request, *catalog, self.phase, event, next.0.phase, next.1),
    {
        let request = self.request;
        let (phase, action) = match (self.phase, event) {
            (SelectionPhase::Listing, SelectionEvent::Listed { accounts, left }) => on_listed(
                &request,
                catalog,
                accounts,
                left,
            ),
            (SelectionPhase::Asking { listed }, SelectionEvent::Asked { end, answers }) => {
                match question_failure(end) {
                    Some(error) => (SelectionPhase::Ended, SelectionAction::Fail(error)),
                    None => match filter_model_accounts(only_accounts(listed), &answers) {
                        Ok(accounts) => (
                            SelectionPhase::LoadingState { accounts },
                            SelectionAction::LoadState,
                        ),
                        Err(error) => (SelectionPhase::Ended, SelectionAction::Fail(error)),
                    },
                }
            },
            (SelectionPhase::LoadingState { accounts }, SelectionEvent::StateLoaded(loaded)) => {
                match loaded {
                    Some(state) => (
                        SelectionPhase::ReadingCooldowns { accounts, state },
                        SelectionAction::ReadCooldowns,
                    ),
                    None => (
                        SelectionPhase::Ended,
                        SelectionAction::Fail(infrastructure_unavailable()),
                    ),
                }
            },
            (
                SelectionPhase::ReadingCooldowns { accounts, state },
                SelectionEvent::CooldownsRead(read),
            ) => {
                let cursor = state.round_robin_cursor();
                match gather(put_together(accounts, read), &state) {
                    Ok(known) => (SelectionPhase::Weighing { known, cursor }, SelectionAction::Weigh),
                    Err(error) => (SelectionPhase::Ended, SelectionAction::Fail(error)),
                }
            },
            (
                SelectionPhase::Weighing { known, cursor },
                SelectionEvent::Weighed { waits, may_try },
            ) => {
                let round = SelectionRound::begin(
                    copy_texts(&request.excluded),
                    waits,
                    &known,
                    &may_try,
                );
                (SelectionPhase::Choosing { known, cursor, round }, SelectionAction::Choose)
            },
            (SelectionPhase::Choosing { known, cursor, round }, SelectionEvent::Chosen(reply)) => {
                match chosen(reply) {
                    RoundStep::Acquire(place) => (
                        SelectionPhase::Leasing { known, cursor, round, place },
                        SelectionAction::Acquire(place),
                    ),
                    RoundStep::Refresh => (SelectionPhase::Listing, SelectionAction::List),
                    RoundStep::Fail(error) => (SelectionPhase::Ended, SelectionAction::Fail(error)),
                    RoundStep::End => match round.end(request.max_waiting) {
                        Ok(names) => (SelectionPhase::Waiting, SelectionAction::Wait(names)),
                        Err(error) => (SelectionPhase::Ended, SelectionAction::Fail(error)),
                    },
                }
            },
            (
                SelectionPhase::Leasing { known, cursor, round, place },
                SelectionEvent::Leased(reply),
            ) => {
                let mut round = round;
                match round.leased(&known[place].account, reply) {
                    LeaseStep::Load => (
                        SelectionPhase::Loading { known, place },
                        SelectionAction::Load(place),
                    ),
                    LeaseStep::ChooseAgain => (
                        SelectionPhase::Choosing { known, cursor, round },
                        SelectionAction::Choose,
                    ),
                    LeaseStep::Fail(error) => (SelectionPhase::Ended, SelectionAction::Fail(error)),
                }
            },
            (SelectionPhase::Loading { known, place }, SelectionEvent::Loaded(loaded)) => {
                match credential_loaded(loaded, &known[place].account, request.kind.as_str()) {
                    LoadStep::Done(credential) => (
                        SelectionPhase::Ended,
                        SelectionAction::Done(credential),
                    ),
                    LoadStep::Refresh => (SelectionPhase::Listing, SelectionAction::List),
                    LoadStep::Fail(error) => (SelectionPhase::Ended, SelectionAction::Fail(error)),
                }
            },
            (SelectionPhase::Waiting, SelectionEvent::Waited(failed)) => match failed {
                Some(kind) => (
                    SelectionPhase::Ended,
                    SelectionAction::Fail(ProviderError::unsent(kind)),
                ),
                None => (SelectionPhase::Listing, SelectionAction::List),
            },
            _ => {
                assert(false);
                (SelectionPhase::Ended, SelectionAction::List)
            },
        };
        (AccountSelection { request, phase }, action)
    }
}

fn on_listed<R>(
    request: &SelectionRequest,
    catalog: &ModelCatalog,
    accounts: Option<Vec<ListedAccount>>,
    left: Option<u128>,
) -> (next: (SelectionPhase<R>, SelectionAction))
    ensures
        after_listed(*request, *catalog, accounts, left, next.0, next.1),
{
    let required = match &request.required {
        Some(id) => Some(id.as_str()),
        None => None,
    };
    let kept = match candidates(accounts, request.kind.as_str(), required) {
        Ok(kept) => kept,
        Err(error) => return (SelectionPhase::Ended, SelectionAction::Fail(error)),
    };
    match question(catalog, kept, request.with_model, request.trial, left) {
        Ok(ModelQuestion::Skip(listed)) => (
            SelectionPhase::LoadingState { accounts: only_accounts(listed) },
            SelectionAction::LoadState,
        ),
        Ok(ModelQuestion::Ask { accounts: listed, within }) => (
            SelectionPhase::Asking { listed },
            SelectionAction::Ask { within },
        ),
        Err(error) => (SelectionPhase::Ended, SelectionAction::Fail(error)),
    }
}

/// An account is only handed out with the credential, at the version, that the lease is for, and only
/// one of the provider's own.
pub proof fn handed_out_as_leased<R>(
    request: SelectionRequest,
    catalog: ModelCatalog,
    before: SelectionPhase<R>,
    event: SelectionEvent<R>,
    phase: SelectionPhase<R>,
    action: SelectionAction,
)
    requires
        follows(request, catalog, before, event, phase, action),
        action is Done,
    ensures
        before matches SelectionPhase::Loading { known, place } && (action
            matches SelectionAction::Done(credential) && credential.account.id@
            == known@[place as int].account.id@ && credential.account.revision
            == known@[place as int].account.revision && credential.account.provider@
            == request.kind@),
{
}

/// A lease is only asked for on an account that the policy chose, and a credential only read under a
/// lease.
pub proof fn credentials_are_read_under_lease<R>(
    request: SelectionRequest,
    catalog: ModelCatalog,
    before: SelectionPhase<R>,
    event: SelectionEvent<R>,
    phase: SelectionPhase<R>,
    action: SelectionAction,
)
    requires
        follows(request, catalog, before, event, phase, action),
    ensures
        action matches SelectionAction::Load(place) ==> (before matches SelectionPhase::Leasing {
            place: leased,
            ..
        } && leased == place && event == SelectionEvent::<R>::Leased(LeaseReply::Acquired)),
        action matches SelectionAction::Acquire(place) ==> before is Choosing && event
            == SelectionEvent::<R>::Chosen(PolicyReply::Selected(place)),
{
}

/// Nothing that fails here was sent to anybody.
pub proof fn failed_choice_sent_nothing<R>(
    request: SelectionRequest,
    catalog: ModelCatalog,
    before: SelectionPhase<R>,
    event: SelectionEvent<R>,
    phase: SelectionPhase<R>,
    action: SelectionAction,
)
    requires
        follows(request, catalog, before, event, phase, action),
        action is Fail,
    ensures
        phase is Ended,
        action matches SelectionAction::Fail(error) && error.send_state
            == UpstreamSendState::NotSent,
{
}

/// Each account that comes into question is the provider's own and allowed, and none that is is left
/// out.
pub proof fn question_is_exact(
    listed: Seq<ListedAccount>,
    kind: Seq<char>,
    required: Option<Seq<char>>,
    account: ListedAccount,
)
    ensures
        in_question(listed, kind, required).contains(account) <==> listed.contains(account)
            && comes_into_question(account, kind, required),
    decreases listed.len(),
{
    if listed.len() > 0 {
        let front = listed.drop_last();
        question_is_exact(front, kind, required, account);
        let kept = in_question(listed, kind, required);
        let earlier = in_question(front, kind, required);
        if kept.contains(account) {
            let k = choose|k: int| 0 <= k < kept.len() && kept[k] == account;
            if k < earlier.len() {
                assert(earlier[k] == account);
                let j = choose|j: int| 0 <= j < front.len() && front[j] == account;
                assert(listed[j] == account);
            } else {
                assert(listed[listed.len() - 1] == account);
            }
        }
        if listed.contains(account) && comes_into_question(account, kind, required) {
            let j = choose|j: int| 0 <= j < listed.len() && listed[j] == account;
            if j < front.len() {
                assert(front[j] == account);
                let k = choose|k: int| 0 <= k < earlier.len() && earlier[k] == account;
                assert(kept[k] == account);
            } else {
                assert(kept[kept.len() - 1] == account);
            }
        }
    }
}

/// A request that found an account busy is never told that there is no account for it.
pub proof fn busy_is_waited_for<R>(
    request: SelectionRequest,
    catalog: ModelCatalog,
    before: SelectionPhase<R>,
    between: SelectionPhase<R>,
    asked_again: SelectionAction,
    after: SelectionPhase<R>,
    action: SelectionAction,
)
    requires
        follows(
            request,
            catalog,
            before,
            SelectionEvent::Leased(LeaseReply::Busy),
            between,
            asked_again,
        ),
        follows(
            request,
            catalog,
            between,
            SelectionEvent::Chosen(PolicyReply::Nothing),
            after,
            action,
        ),
    ensures
        !fails(after, action, ProviderErrorKind::NoEligibleAccount),
        request.max_waiting > 0 ==> after is Waiting,
{
    let round = between->Choosing_round;
    assert(texts(round.wait_for@).len() == round.wait_for@.len());
}

/// A run of the choice: it begins with a listing, and each step follows from the one before.
pub open spec fn is_run<R>(
    request: SelectionRequest,
    catalog: ModelCatalog,
    phases: Seq<SelectionPhase<R>>,
    events: Seq<SelectionEvent<R>>,
    actions: Seq<SelectionAction>,
) -> bool {
    &&& phases.len() == events.len() + 1
    &&& actions.len() == events.len()
    &&& phases[0] is Listing
    &&& forall|i: int|
        0 <= i < events.len() ==> can_happen(phases[i], #[trigger] events[i]) && follows(
            request,
            catalog,
            phases[i],
            events[i],
            phases[i + 1],
            actions[i],
        )
}

/// An account is one that a listing brought and that came into question.
pub open spec fn was_in_question<R>(
    request: SelectionRequest,
    events: Seq<SelectionEvent<R>>,
    account: ProviderAccount,
) -> bool {
    exists|i: int, j: int|
        0 <= i < events.len() && #[trigger] is_listed_at(request, events[i], j, account)
}

/// A listing brought an account at a place, where it came into question.
pub open spec fn is_listed_at<R>(
    request: SelectionRequest,
    event: SelectionEvent<R>,
    j: int,
    account: ProviderAccount,
) -> bool {
    event matches SelectionEvent::Listed { accounts: Some(listed), .. } && 0 <= j < listed@.len()
        && listed@[j].account == account && comes_into_question(
        listed@[j],
        request.kind@,
        text_of(request.required),
    )
}

/// All accounts that a phase holds came into question.
pub open spec fn all_in_question<R>(
    request: SelectionRequest,
    events: Seq<SelectionEvent<R>>,
    phase: SelectionPhase<R>,
) -> bool {
    match phase {
        SelectionPhase::Asking { listed } => forall|i: int|
            0 <= i < listed@.len() ==> was_in_question(
                request,
                events,
                (#[trigger] listed@[i]).account,
            ),
        SelectionPhase::LoadingState { accounts } => forall|i: int|
            0 <= i < accounts@.len() ==> was_in_question(request, events, #[trigger] accounts@[i]),
        SelectionPhase::ReadingCooldowns { accounts, .. } => forall|i: int|
            0 <= i < accounts@.len() ==> was_in_question(request, events, #[trigger] accounts@[i]),
        SelectionPhase::Weighing { known, .. } => are_in_question(request, events, known@),
        SelectionPhase::Choosing { known, .. } => are_in_question(request, events, known@),
        SelectionPhase::Leasing { known, .. } => are_in_question(request, events, known@),
        SelectionPhase::Loading { known, .. } => are_in_question(request, events, known@),
        _ => true,
    }
}

/// Candidates that came into question.
pub open spec fn are_in_question<R>(
    request: SelectionRequest,
    events: Seq<SelectionEvent<R>>,
    known: Seq<AccountCandidate<R>>,
) -> bool {
    forall|i: int|
        0 <= i < known.len() ==> was_in_question(request, events, (#[trigger] known[i]).account)
}

/// What was in question stays so when more happens.
proof fn lemma_question_stays<R>(
    request: SelectionRequest,
    events: Seq<SelectionEvent<R>>,
    event: SelectionEvent<R>,
    account: ProviderAccount,
)
    requires
        was_in_question(request, events, account),
    ensures
        was_in_question(request, events.push(event), account),
{
    let (i, j) = choose|i: int, j: int|
        0 <= i < events.len() && #[trigger] is_listed_at(request, events[i], j, account);
    assert(is_listed_at(request, events.push(event)[i], j, account));
}

/// Whoever is asked is on the list.
proof fn lemma_asked(listed: Seq<ListedAccount>, trial: bool, one: ListedAccount)
    requires
        asked(listed, trial).contains(one),
    ensures
        listed.contains(one),
    decreases listed.len(),
{
    if listed.len() > 0 {
        let front = listed.drop_last();
        let kept = asked(listed, trial);
        let k = choose|k: int| 0 <= k < kept.len() && kept[k] == one;
        if k < asked(front, trial).len() {
            assert(asked(front, trial)[k] == one);
            lemma_asked(front, trial, one);
            let j = choose|j: int| 0 <= j < front.len() && front[j] == one;
            assert(listed[j] == one);
        } else {
            assert(listed[listed.len() - 1] == one);
        }
    }
}

/// One step keeps to the accounts in question.
proof fn lemma_step_keeps_to_question<R>(
    request: SelectionRequest,
    catalog: ModelCatalog,
    events: Seq<SelectionEvent<R>>,
    before: SelectionPhase<R>,
    event: SelectionEvent<R>,
    after: SelectionPhase<R>,
    action: SelectionAction,
)
    requires
        all_in_question(request, events, before),
        can_happen(before, event),
        follows(request, catalog, before, event, after, action),
    ensures
        all_in_question(request, events.push(event), after),
{
    let all = events.push(event);
    assert forall|account: ProviderAccount| #[trigger]
        was_in_question(request, events, account) implies was_in_question(
        request,
        all,
        account,
    ) by {
        lemma_question_stays(request, events, event, account);
    }
    match (before, event) {
        (SelectionPhase::Listing, SelectionEvent::Listed { accounts, left }) => {
            if accounts is Some {
                let listed = accounts->0@;
                let required = text_of(request.required);
                let kept = in_question(listed, request.kind@, required);
                assert forall|one: ListedAccount| kept.contains(one) implies #[trigger] was_in_question(
                    request,
                    all,
                    one.account,
                ) by {
                    question_is_exact(listed, request.kind@, required, one);
                    let j = choose|j: int| 0 <= j < listed.len() && listed[j] == one;
                    assert(all[events.len() as int] == event);
                    assert(is_listed_at(request, all[events.len() as int], j, one.account));
                }
                match after {
                    SelectionPhase::Asking { listed: next } => {
                        assert forall|i: int| 0 <= i < next@.len() implies was_in_question(
                            request,
                            all,
                            (#[trigger] next@[i]).account,
                        ) by {
                            lemma_asked(kept, request.trial, next@[i]);
                        }
                    },
                    SelectionPhase::LoadingState { accounts: next } => {
                        assert forall|i: int| 0 <= i < next@.len() implies was_in_question(
                            request,
                            all,
                            #[trigger] next@[i],
                        ) by {
                            assert(kept.contains(kept[i]));
                        }
                    },
                    _ => {},
                }
            }
        },
        (SelectionPhase::Asking { listed }, SelectionEvent::Asked { end, answers }) => {
            match after {
                SelectionPhase::LoadingState { accounts: next } => {
                    assert forall|i: int| 0 <= i < next@.len() implies was_in_question(
                        request,
                        all,
                        #[trigger] next@[i],
                    ) by {
                        let accounts = accounts_of(listed@);
                        assert(allowed_accounts(accounts, answers@).contains(next@[i]));
                        allowed_were_asked(accounts, answers@, next@[i]);
                        let j = choose|j: int| 0 <= j < accounts.len() && accounts[j] == next@[i];
                        assert(was_in_question(request, events, listed@[j].account));
                    }
                },
                _ => {},
            }
        },
        (SelectionPhase::ReadingCooldowns { accounts, state }, SelectionEvent::CooldownsRead(read)) => {
            match after {
                SelectionPhase::Weighing { known, .. } => {
                    assert forall|i: int| 0 <= i < known@.len() implies was_in_question(
                        request,
                        all,
                        (#[trigger] known@[i]).account,
                    ) by {
                        assert(known@[i].account == accounts@[i]);
                    }
                },
                _ => {},
            }
        },
        _ => {},
    }
}

/// Every phase of a run holds only accounts in question.
proof fn lemma_run_keeps_to_question<R>(
    request: SelectionRequest,
    catalog: ModelCatalog,
    phases: Seq<SelectionPhase<R>>,
    events: Seq<SelectionEvent<R>>,
    actions: Seq<SelectionAction>,
    n: int,
)
    requires
        is_run(request, catalog, phases, events, actions),
        0 <= n <= events.len(),
    ensures
        all_in_question(request, events.take(n), phases[n]),
    decreases n,
{
    if n > 0 {
        lemma_run_keeps_to_question(request, catalog, phases, events, actions, n - 1);
        assert(can_happen(phases[n - 1], events[n - 1]));
        lemma_step_keeps_to_question(
            request,
            catalog,
            events.take(n - 1),
            phases[n - 1],
            events[n - 1],
            phases[n],
            actions[n - 1],
        );
        assert(events.take(n - 1).push(events[n - 1]) =~= events.take(n));
    }
}

/// The account that a run hands out is the provider's own and the required one, if any, and the
/// request's scope, if any, allows it and the model: it has the name and the version of an account
/// that a listing of this run brought and that came into question.
pub proof fn handed_out_was_in_question<R>(
    request: SelectionRequest,
    catalog: ModelCatalog,
    phases: Seq<SelectionPhase<R>>,
    events: Seq<SelectionEvent<R>>,
    actions: Seq<SelectionAction>,
    credential: LoadedCredential,
)
    requires
        is_run(request, catalog, phases, events, actions),
        events.len() > 0,
        actions.last() == SelectionAction::Done(credential),
    ensures
        credential.account.provider@ == request.kind@,
        request.required matches Some(id) ==> credential.account.id@ == id@,
        exists|account: ProviderAccount|
            {
                &&& #[trigger] was_in_question(request, events, account)
                &&& credential.account.id@ == account.id@
                &&& credential.account.revision == account.revision
            },
{
    let n = events.len() - 1;
    lemma_run_keeps_to_question(request, catalog, phases, events, actions, n);
    assert(can_happen(phases[n], events[n]));
    assert(follows(request, catalog, phases[n], events[n], phases[n + 1], actions[n]));
    let known = phases[n]->Loading_known;
    let place = phases[n]->Loading_place;
    let account = known@[place as int].account;
    assert(was_in_question(request, events.take(n), account));
    lemma_question_stays(request, events.take(n), events[n], account);
    assert(events.take(n).push(events[n]) =~= events);
    let (i, j) = choose|i: int, j: int|
        0 <= i < events.len() && #[trigger] is_listed_at(request, events[i], j, account);
    assert(is_listed_at(request, events[i], j, account));
}

/// An account comes into question exactly if it is the provider's own, is the required one where one is
/// required, and is allowed by the request's scope where there is one, and so is the model.
pub proof fn questionable_accounts(
    listed: ListedAccount,
    kind: Seq<char>,
    required: Option<Seq<char>>,
)
    ensures
        comes_into_question(listed, kind, required) <==> {
            &&& listed.account.provider@ == kind
            &&& required is Some ==> required->0 == listed.account.id@
            &&& listed.scope is Some ==> listed.scope->0.allows
            &&& listed.scope is Some && listed.scope->0.allows_model is Some
                ==> listed.scope->0.allows_model->0
        },
{
}

/// The accounts that come into question, and those that are asked, keep their order, and whether one
/// does or is does not depend on the others.
pub proof fn questions_keep_order(
    a: Seq<ListedAccount>,
    b: Seq<ListedAccount>,
    kind: Seq<char>,
    required: Option<Seq<char>>,
    trial: bool,
)
    ensures
        in_question(a + b, kind, required) == in_question(a, kind, required) + in_question(
            b,
            kind,
            required,
        ),
        asked(a + b, trial) == asked(a, trial) + asked(b, trial),
    decreases b.len(),
{
    if b.len() == 0 {
        assert(a + b =~= a);
        assert(in_question(a, kind, required) + in_question(b, kind, required) =~= in_question(
            a,
            kind,
            required,
        ));
        assert(asked(a, trial) + asked(b, trial) =~= asked(a, trial));
    } else {
        questions_keep_order(a, b.drop_last(), kind, required, trial);
        assert((a + b).drop_last() =~= a + b.drop_last());
        assert((a + b).last() == b.last());
        assert(in_question(a + b, kind, required) =~= in_question(a, kind, required) + in_question(
            b,
            kind,
            required,
        ));
        assert(asked(a + b, trial) =~= asked(a, trial) + asked(b, trial));
    }
}

/// An account is asked exactly if it can be used, or the request is a trial.
pub proof fn asked_accounts(listed: Seq<ListedAccount>, trial: bool, account: ListedAccount)
    ensures
        asked(listed, trial).contains(account) <==> listed.contains(account) && (trial
            || account.status is Normal),
        trial ==> asked(listed, trial) == listed,
    decreases listed.len(),
{
    if listed.len() > 0 {
        let front = listed.drop_last();
        asked_accounts(front, trial, account);
        assert(listed =~= front.push(listed.last()));
        lemma_in_push(front, listed.last(), account);
        lemma_in_push(asked(front, trial), listed.last(), account);
    }
}

proof fn lemma_in_push<T>(items: Seq<T>, item: T, x: T)
    ensures
        items.push(item).contains(x) <==> items.contains(x) || x == item,
{
    if items.contains(x) {
        let i = choose|i: int| 0 <= i < items.len() && items[i] == x;
        assert(items.push(item)[i] == x);
    }
    assert(items.push(item)[items.len() as int] == item);
}

/// An account can be chosen with what is known of its use. A time for which it is left alone counts
/// exactly if it was set for the present version of its credential.
pub proof fn candidates_as_known<R>(asked: AskedAccount<R>, state: ProviderSchedulingState)
    requires
        is_known(asked, state),
    ensures
        asked.cooldown is Some,
        candidate_of(asked, state).account == asked.account,
        entry(state.signals@, asked.account.id@) == Some(candidate_of(asked, state).signals),
        candidate_of(asked, state).rate_limit is Some <==> asked.cooldown->0 is Some
            && asked.cooldown->0->0.credential_revision == asked.account.revision,
        candidate_of(asked, state).rate_limit is Some ==> candidate_of(asked, state).rate_limit
            == Some(asked.cooldown->0->0.rate_limit),
{
}

/// The accounts that are held back are those whose turn it is not, and no others.
pub proof fn held_back_until_their_turn<R>(
    accounts: Seq<AccountCandidate<R>>,
    may_try: Seq<bool>,
    name: Seq<char>,
)
    requires
        accounts.len() <= may_try.len(),
    ensures
        held_back(accounts, may_try).contains(name) <==> exists|i: int|
            0 <= i < accounts.len() && (#[trigger] accounts[i]).account.id@ == name && !may_try[i],
    decreases accounts.len(),
{
    if accounts.len() > 0 {
        let front = accounts.drop_last();
        let last = accounts.len() - 1;
        held_back_until_their_turn(front, may_try, name);
        lemma_in_push(held_back(front, may_try), accounts.last().account.id@, name);
        assert(accounts[last] == accounts.last());
        if held_back(front, may_try).contains(name) {
            let i = choose|i: int|
                0 <= i < front.len() && (#[trigger] front[i]).account.id@ == name && !may_try[i];
            assert(accounts[i] == front[i]);
        }
        if exists|i: int|
            0 <= i < accounts.len() && (#[trigger] accounts[i]).account.id@ == name && !may_try[i] {
            let i = choose|i: int|
                0 <= i < accounts.len() && (#[trigger] accounts[i]).account.id@ == name
                    && !may_try[i];
            if i < last {
                assert(front[i] == accounts[i]);
            }
        }
    }
}

/// A credential is that of the leased account exactly if it is of the same name and version, and of the
/// provider.
pub proof fn leased_credentials(
    loaded: LoadedCredential,
    account: ProviderAccount,
    kind: Seq<char>,
)
    ensures
        is_leased(loaded, account, kind) <==> loaded.account.id@ == account.id@
            && loaded.account.revision == account.revision && loaded.account.provider@ == kind,
{
}

/// The policy is told which accounts are left out, that a required account goes before all others
/// whatever its weight, whose turn it is, and that a trial may use any account.
pub proof fn policy_is_told(
    context: SelectionContext,
    request: SelectionRequest,
    excluded: Seq<String>,
    cursor: u64,
)
    requires
        is_context_of(context, request, excluded, cursor),
    ensures
        context.excluded@ == excluded,
        context.preferred == request.required,
        context.preferred_overrides_weight,
        context.round_robin_cursor == cursor,
        context.bypass_eligibility <==> request.trial,
{
}

/// Each way in which the choice of an account fails is told as what it is.
pub proof fn failed_choices<R>(
    request: SelectionRequest,
    catalog: ModelCatalog,
    before: SelectionPhase<R>,
    event: SelectionEvent<R>,
    phase: SelectionPhase<R>,
    action: SelectionAction,
)
    requires
        follows(request, catalog, before, event, phase, action),
    ensures
        event matches SelectionEvent::Listed { accounts: None, left } ==> (action matches SelectionAction::Fail(error) && error.kind is ProviderInfrastructureUnavailable),
        event matches SelectionEvent::Listed { accounts: Some(_), left: None } && request.with_model
            && catalog.discovery is Some ==> (action matches SelectionAction::Fail(error) && error.kind is Timeout),
        event matches SelectionEvent::Asked { end: QuestionEnd::TimedOut, answers } ==> (action matches SelectionAction::Fail(error) && error.kind is Timeout),
        event matches SelectionEvent::Asked { end: QuestionEnd::Cancelled, answers } ==> (action matches SelectionAction::Fail(error) && error.kind is Cancelled),
        event matches SelectionEvent::StateLoaded(None) ==> (action matches SelectionAction::Fail(error) && error.kind is ProviderInfrastructureUnavailable),
        event matches SelectionEvent::Chosen(PolicyReply::Rejected) ==> (action matches SelectionAction::Fail(error) && error.kind is RequestPolicyDenied),
        event matches SelectionEvent::Chosen(PolicyReply::Fault) ==> (action matches SelectionAction::Fail(error) && error.kind is Unavailable),
        event matches SelectionEvent::Leased(LeaseReply::Failed) ==> (action matches SelectionAction::Fail(error) && error.kind is ProviderInfrastructureUnavailable),
        event matches SelectionEvent::Loaded(None) ==> (action matches SelectionAction::Fail(error) && error.kind is ProviderInfrastructureUnavailable),
        event matches SelectionEvent::Waited(Some(kind)) ==> (action matches SelectionAction::Fail(error) && error.kind == kind),
        event matches SelectionEvent::Chosen(PolicyReply::Nothing) ==> (before
            matches SelectionPhase::Choosing { known, cursor, round } && {
            &&& round.wait_for@.len() == 0 ==> (action matches SelectionAction::Fail(error)
                && error.kind is NoEligibleAccount)
            &&& round.wait_for@.len() > 0 && request.max_waiting == 0 ==> (action
                matches SelectionAction::Fail(error) && error.kind is AccountCapacityUnavailable)
            &&& round.wait_for@.len() > 0 && request.max_waiting > 0 ==> action is Wait && phase
                is Waiting
        }),
{
}

/// The choice begins anew, with the accounts as they are, when an account was changed meanwhile, when
/// the credential is not that of the account that was leased, and when the wait is over.
pub proof fn choices_begin_anew<R>(
    request: SelectionRequest,
    catalog: ModelCatalog,
    before: SelectionPhase<R>,
    event: SelectionEvent<R>,
    phase: SelectionPhase<R>,
    action: SelectionAction,
)
    requires
        follows(request, catalog, before, event, phase, action),
    ensures
        event matches SelectionEvent::Chosen(PolicyReply::Stale) ==> action is List && phase
            is Listing,
        event matches SelectionEvent::Waited(None) ==> action is List && phase is Listing,
        event matches SelectionEvent::Loaded(Some(credential)) ==> (before
            matches SelectionPhase::Loading { known, place } && {
            let account = known@[place as int].account;
            let right = credential.account.id@ == account.id@ && credential.account.revision
                == account.revision && credential.account.provider@ == request.kind@;
            &&& right ==> action == SelectionAction::Done(credential) && phase is Ended
            &&& !right ==> action is List && phase is Listing
        }),
        action is List ==> phase is Listing,
{
}

/// Of the accounts that were listed, those go on that come into question; where the request is for a
/// model and accounts are asked for theirs, those of them are asked that can be used, or all in a
/// trial, within the time that is left.
pub proof fn listed_accounts_go_on<R>(
    request: SelectionRequest,
    catalog: ModelCatalog,
    listed: Vec<ListedAccount>,
    left: Option<u128>,
    phase: SelectionPhase<R>,
    action: SelectionAction,
    one: ListedAccount,
)
    requires
        follows(
            request,
            catalog,
            SelectionPhase::Listing,
            SelectionEvent::Listed { accounts: Some(listed), left },
            phase,
            action,
        ),
    ensures
        !request.with_model || catalog.discovery is None ==> action is LoadState && (phase
            matches SelectionPhase::LoadingState { accounts } && (listed@.contains(one)
            && comes_into_question(one, request.kind@, text_of(request.required))
            ==> accounts@.contains(one.account))),
        request.with_model && catalog.discovery is Some && left is Some ==> action == (
        SelectionAction::Ask { within: left->0 }) && (phase matches SelectionPhase::Asking {
            listed: kept,
        } && (kept@.contains(one) <==> listed@.contains(one) && comes_into_question(
            one,
            request.kind@,
            text_of(request.required),
        ) && (request.trial || one.status is Normal))),
{
    let kept = in_question(listed@, request.kind@, text_of(request.required));
    question_is_exact(listed@, request.kind@, text_of(request.required), one);
    asked_accounts(kept, request.trial, one);
    if kept.contains(one) {
        let i = choose|i: int| 0 <= i < kept.len() && kept[i] == one;
        assert(accounts_of(kept)[i] == one.account);
    }
}

/// An account that is busy is left out of the rest of the round, and the request may wait for it; the
/// other accounts and whose turn it is stay as they were.
pub proof fn busy_accounts_are_left_out<R>(
    request: SelectionRequest,
    catalog: ModelCatalog,
    known: Vec<AccountCandidate<R>>,
    cursor: u64,
    round: SelectionRound,
    place: usize,
    phase: SelectionPhase<R>,
    action: SelectionAction,
)
    requires
        follows(
            request,
            catalog,
            SelectionPhase::Leasing { known, cursor, round, place },
            SelectionEvent::Leased(LeaseReply::Busy),
            phase,
            action,
        ),
    ensures
        action is Choose,
        phase matches SelectionPhase::Choosing { known: same, cursor: turn, round: next } && same
            == known && turn == cursor && texts(next.excluded@).contains(
            known@[place as int].account.id@,
        ) && texts(next.wait_for@).contains(known@[place as int].account.id@) && texts(
            next.excluded@,
        ).len() == texts(round.excluded@).len() + 1,
{
    let id = known@[place as int].account.id@;
    lemma_in_push(texts(round.excluded@), id, id);
    lemma_in_push(texts(round.wait_for@), id, id);
}

/// The account that the policy selects is asked for a place, and once it has one its credential is
/// read; whoever is waited for is everybody that was busy, each once.
pub proof fn choices_go_on<R>(
    request: SelectionRequest,
    catalog: ModelCatalog,
    before: SelectionPhase<R>,
    event: SelectionEvent<R>,
    phase: SelectionPhase<R>,
    action: SelectionAction,
    name: Seq<char>,
)
    requires
        follows(request, catalog, before, event, phase, action),
    ensures
        event matches SelectionEvent::Chosen(PolicyReply::Selected(place)) ==> action
            == SelectionAction::Acquire(place) && (phase matches SelectionPhase::Leasing {
            place: asked,
            ..
        } && asked == place),
        event == SelectionEvent::<R>::Leased(LeaseReply::Acquired) ==> (before
            matches SelectionPhase::Leasing { place, .. } && action == SelectionAction::Load(place)),
        action matches SelectionAction::Wait(names) ==> (before matches SelectionPhase::Choosing {
            round,
            ..
        } && (texts(names@).contains(name) <==> texts(round.wait_for@).contains(name)) && texts(
            names@,
        ).no_duplicates()),
        action is Fail || action is Done <==> phase is Ended,
{
    if let SelectionAction::Wait(names) = action {
        if let SelectionPhase::Choosing { round, .. } = before {
            assert(texts(names@).to_set().contains(name) == texts(round.wait_for@).to_set().contains(
                name,
            ));
            crate::text::lemma_ascending_is_distinct(texts(names@));
        }
    }
}

} // verus!
