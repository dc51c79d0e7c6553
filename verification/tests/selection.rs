use gateway_plugin::account::{CredentialState, LoadedCredential, ProviderAccount};
use gateway_plugin::catalog::account::AccountAnswer;
use gateway_plugin::catalog::directory::AccountStatus;
use gateway_plugin::catalog::{ModelCatalog, ModelDiscovery};
use gateway_plugin::fault::ProviderErrorKind;
use gateway_plugin::manifest::{Capability, CapabilityDeclaration, Manifest, Stage};
use gateway_plugin::provider_ports::{AccountRuntimeSignals, ProviderSchedulingState};
use gateway_plugin::rotation::LeaseReply;
use gateway_plugin::selection::{
    AccountSelection, Cooldown, ListedAccount, PolicyReply, QuestionEnd, ScopeAnswer,
    SelectionAction, SelectionEvent, SelectionPhase, SelectionRequest,
};

fn account(id: &str) -> ProviderAccount {
    ProviderAccount {
        id: id.to_owned(),
        provider: "custom".to_owned(),
        revision: 4,
        name: "name".to_owned(),
        email: None,
        authentication_kind: "oauth".to_owned(),
        upstream_user_id: None,
        upstream_account_id: None,
        plan_type: None,
        has_refresh_token: false,
        access_token_expires_at_ms: None,
        next_refresh_at_ms: None,
        enabled: true,
        credential_state: CredentialState::Ready,
        has_error: false,
        outbound_proxy: None,
    }
}

fn listed(id: &str) -> ListedAccount {
    ListedAccount { account: account(id), scope: None, status: AccountStatus::Normal }
}

fn request() -> SelectionRequest {
    SelectionRequest {
        kind: "custom".to_owned(),
        required: None,
        with_model: false,
        trial: false,
        excluded: vec!["barred".to_owned()],
        max_waiting: 3,
    }
}

fn plain() -> ModelCatalog {
    ModelCatalog { static_models: vec![], discovery: None }
}

fn discovering() -> ModelCatalog {
    let manifest = Manifest {
        contributes: vec![CapabilityDeclaration {
            capability: Capability::Models,
            stages: vec![Stage::Management],
            input_formats: vec![],
            output_formats: vec![],
        }],
    };
    ModelCatalog::prepare(
        vec![],
        Some(ModelDiscovery { cache_ttl_seconds: 60, include_static: false }),
        &manifest,
    )
    .ok()
    .expect("a catalog")
}

fn signals() -> AccountRuntimeSignals {
    AccountRuntimeSignals {
        in_flight: 0,
        last_started_at_ms: None,
        quota_reset_at_ms: None,
        quota_remaining_rank: None,
        cooldown_until_ms: None,
        failure_rate_basis_points: None,
        first_output_latency_ms: None,
    }
}

fn state(ids: &[&str]) -> ProviderSchedulingState {
    ProviderSchedulingState::new(ids.iter().map(|id| ((*id).to_owned(), signals())).collect(), 9)
}

type Machine = AccountSelection<u8>;

fn list(request: SelectionRequest, catalog: &ModelCatalog, accounts: Vec<ListedAccount>) -> (
    Machine,
    SelectionAction,
) {
    let (machine, action) = Machine::new(request);
    assert!(matches!(action, SelectionAction::List));
    machine.step(
        catalog,
        SelectionEvent::Listed { accounts: Some(accounts), left: Some(50) },
    )
}

/// A machine that asks its policy to choose between two accounts.
fn choosing(max_waiting: usize, waits: Vec<String>) -> Machine {
    let catalog = plain();
    let request = SelectionRequest { max_waiting, ..request() };
    let (machine, action) = list(request, &catalog, vec![listed("a"), listed("b")]);
    assert!(matches!(action, SelectionAction::LoadState));
    let (machine, action) =
        machine.step(&catalog, SelectionEvent::StateLoaded(Some(state(&["a", "b"]))));
    assert!(matches!(action, SelectionAction::ReadCooldowns));
    let read = vec![Some(None), Some(None)];
    let (machine, action) = machine.step(&catalog, SelectionEvent::CooldownsRead(read));
    assert!(matches!(action, SelectionAction::Weigh));
    let (machine, action) = machine
        .step(&catalog, SelectionEvent::Weighed { waits, may_try: vec![true, true] });
    assert!(matches!(action, SelectionAction::Choose));
    machine
}

fn failure(action: SelectionAction) -> Option<ProviderErrorKind> {
    match action {
        SelectionAction::Fail(error) => Some(error.kind),
        _ => None,
    }
}

#[test]
fn an_account_is_chosen_leased_and_read() {
    let catalog = plain();
    let machine = choosing(3, vec![]);
    match &machine.phase {
        SelectionPhase::Choosing { cursor, round, .. } => {
            assert_eq!(*cursor, 9);
            assert_eq!(round.excluded, vec!["barred"]);
        }
        _ => panic!("the policy is asked"),
    }
    let context = machine.context().expect("the policy is asked");
    assert_eq!(context.excluded, vec!["barred"]);
    assert_eq!(context.round_robin_cursor, 9);
    assert_eq!(context.preferred, None);
    assert!(context.preferred_overrides_weight && !context.bypass_eligibility);
    let (machine, action) =
        machine.step(&catalog, SelectionEvent::Chosen(PolicyReply::Selected(0)));
    assert!(matches!(action, SelectionAction::Acquire(0)));
    assert!(machine.context().is_none());
    let (machine, action) = machine.step(&catalog, SelectionEvent::Leased(LeaseReply::Busy));
    assert!(matches!(action, SelectionAction::Choose));
    assert_eq!(machine.context().expect("the policy is asked").excluded, vec!["barred", "a"]);
    let (machine, _) = machine.step(&catalog, SelectionEvent::Chosen(PolicyReply::Selected(1)));
    let (machine, action) = machine.step(&catalog, SelectionEvent::Leased(LeaseReply::Acquired));
    assert!(matches!(action, SelectionAction::Load(1)));
    let loaded = LoadedCredential { account: account("b"), credential: vec![] };
    let (machine, action) = machine.step(&catalog, SelectionEvent::Loaded(Some(loaded)));
    assert!(matches!(action, SelectionAction::Done(found) if found.account.id == "b"));
    assert!(matches!(machine.phase, SelectionPhase::Ended));
}

#[test]
fn a_credential_that_changed_begins_the_choice_anew() {
    let catalog = plain();
    for changed in [
        account("b"),
        ProviderAccount { revision: 5, ..account("a") },
        ProviderAccount { provider: "other".to_owned(), ..account("a") },
    ] {
        let (machine, _) = choosing(3, vec![])
            .step(&catalog, SelectionEvent::Chosen(PolicyReply::Selected(0)));
        let (machine, _) = machine.step(&catalog, SelectionEvent::Leased(LeaseReply::Acquired));
        let loaded = LoadedCredential { account: changed, credential: vec![] };
        let (machine, action) = machine.step(&catalog, SelectionEvent::Loaded(Some(loaded)));
        assert!(matches!(action, SelectionAction::List));
        assert!(matches!(machine.phase, SelectionPhase::Listing));
    }
}

#[test]
fn a_request_waits_for_accounts_that_are_busy() {
    let catalog = plain();
    let busy = |max_waiting| {
        let waits = vec!["z".to_owned(), "a".to_owned()];
        let (machine, _) = choosing(max_waiting, waits)
            .step(&catalog, SelectionEvent::Chosen(PolicyReply::Selected(0)));
        let (machine, _) = machine.step(&catalog, SelectionEvent::Leased(LeaseReply::Busy));
        machine.step(&catalog, SelectionEvent::Chosen(PolicyReply::Nothing))
    };
    let (machine, action) = busy(3);
    assert!(matches!(action, SelectionAction::Wait(names) if names == vec!["a", "z"]));
    let (_, action) = machine.step(&catalog, SelectionEvent::Waited(None));
    assert!(matches!(action, SelectionAction::List));
    let (machine, _) = busy(3);
    let (_, action) =
        machine.step(&catalog, SelectionEvent::Waited(Some(ProviderErrorKind::Timeout)));
    assert_eq!(failure(action), Some(ProviderErrorKind::Timeout));
    assert_eq!(failure(busy(0).1), Some(ProviderErrorKind::AccountCapacityUnavailable));
    let (_, action) = choosing(3, vec![])
        .step(&catalog, SelectionEvent::Chosen(PolicyReply::Nothing));
    assert_eq!(failure(action), Some(ProviderErrorKind::NoEligibleAccount));
}

#[test]
fn accounts_whose_turn_it_is_not_are_held_back() {
    let catalog = plain();
    let (machine, _) = list(request(), &catalog, vec![listed("a"), listed("b")]);
    let (machine, _) =
        machine.step(&catalog, SelectionEvent::StateLoaded(Some(state(&["a", "b"]))));
    let read = vec![Some(None), Some(None)];
    let (machine, _) = machine.step(&catalog, SelectionEvent::CooldownsRead(read));
    let (machine, _) = machine.step(
        &catalog,
        SelectionEvent::Weighed { waits: vec!["w".to_owned()], may_try: vec![true, false] },
    );
    match machine.phase {
        SelectionPhase::Choosing { round, .. } => {
            assert_eq!(round.excluded, vec!["barred", "b"]);
            assert_eq!(round.wait_for, vec!["w", "b"]);
        }
        _ => panic!("the policy is asked"),
    }
}

#[test]
fn the_policy_has_the_last_word() {
    let catalog = plain();
    for (reply, expected) in [
        (PolicyReply::Rejected, Some(ProviderErrorKind::RequestPolicyDenied)),
        (PolicyReply::Fault, Some(ProviderErrorKind::Unavailable)),
        (PolicyReply::Stale, None),
    ] {
        let (machine, action) = choosing(3, vec![]).step(&catalog, SelectionEvent::Chosen(reply));
        match expected {
            Some(kind) => assert_eq!(failure(action), Some(kind)),
            None => {
                assert!(matches!(action, SelectionAction::List));
                assert!(matches!(machine.phase, SelectionPhase::Listing));
            }
        }
    }
}

#[test]
fn only_accounts_in_question_are_looked_at() {
    let catalog = plain();
    let scoped = |id: &str, allows, allows_model| ListedAccount {
        scope: Some(ScopeAnswer { allows, allows_model }),
        ..listed(id)
    };
    let foreign = ListedAccount {
        account: ProviderAccount { provider: "other".to_owned(), ..account("f") },
        ..listed("f")
    };
    let all = vec![
        listed("a"),
        foreign,
        scoped("b", false, None),
        scoped("c", true, Some(false)),
        scoped("d", true, Some(true)),
        scoped("e", true, None),
    ];
    let (machine, _) = list(request(), &catalog, all);
    match machine.phase {
        SelectionPhase::LoadingState { accounts } => {
            let names: Vec<&str> = accounts.iter().map(|one| one.id.as_str()).collect();
            assert_eq!(names, vec!["a", "d", "e"]);
        }
        _ => panic!("the use of the accounts is read"),
    }
    let wanted = SelectionRequest { required: Some("b".to_owned()), ..request() };
    let (machine, _) = list(wanted, &catalog, vec![listed("a"), listed("b")]);
    assert!(matches!(
        machine.phase,
        SelectionPhase::LoadingState { accounts } if accounts.len() == 1 && accounts[0].id == "b"
    ));
}

#[test]
fn accounts_are_asked_for_the_model() {
    let catalog = discovering();
    let with_model = |trial| SelectionRequest { with_model: true, trial, ..request() };
    let exhausted = || ListedAccount { status: AccountStatus::QuotaExhausted, ..listed("b") };
    let (machine, action) = list(with_model(false), &catalog, vec![listed("a"), exhausted()]);
    assert!(matches!(action, SelectionAction::Ask { within: 50 }));
    assert!(matches!(
        &machine.phase,
        SelectionPhase::Asking { listed } if listed.len() == 1 && listed[0].account.id == "a"
    ));
    let (trial, _) = list(with_model(true), &catalog, vec![listed("a"), exhausted()]);
    assert!(matches!(&trial.phase, SelectionPhase::Asking { listed } if listed.len() == 2));
    let answers = vec![AccountAnswer::Failed, AccountAnswer::Allowed];
    let (trial, action) =
        trial.step(&catalog, SelectionEvent::Asked { end: QuestionEnd::Answered, answers });
    assert!(matches!(action, SelectionAction::LoadState));
    assert!(matches!(
        trial.phase,
        SelectionPhase::LoadingState { accounts } if accounts.len() == 1 && accounts[0].id == "b"
    ));
    drop(machine);
    for (end, answers, expected) in [
        (QuestionEnd::TimedOut, vec![], ProviderErrorKind::Timeout),
        (QuestionEnd::Cancelled, vec![], ProviderErrorKind::Cancelled),
        (
            QuestionEnd::Answered,
            vec![AccountAnswer::Failed],
            ProviderErrorKind::ProviderInfrastructureUnavailable,
        ),
    ] {
        let (machine, _) = list(with_model(false), &catalog, vec![listed("a")]);
        let (_, action) = machine.step(&catalog, SelectionEvent::Asked { end, answers });
        assert_eq!(failure(action), Some(expected));
    }
    let (machine, _) = Machine::new(with_model(false));
    let (_, late) = machine.step(
        &catalog,
        SelectionEvent::Listed { accounts: Some(vec![listed("a")]), left: None },
    );
    assert_eq!(failure(late), Some(ProviderErrorKind::Timeout));
}

#[test]
fn a_time_out_counts_for_the_credential_it_was_set_for() {
    let catalog = plain();
    let (machine, _) = list(request(), &catalog, vec![listed("a"), listed("b")]);
    let (machine, _) =
        machine.step(&catalog, SelectionEvent::StateLoaded(Some(state(&["a", "b"]))));
    let cooldown = |credential_revision| {
        Some(Some(Cooldown { credential_revision, rate_limit: 7_u8 }))
    };
    let read = vec![cooldown(4), cooldown(3)];
    let (machine, _) = machine.step(&catalog, SelectionEvent::CooldownsRead(read));
    match machine.phase {
        SelectionPhase::Weighing { known, .. } => {
            assert_eq!(known[0].rate_limit, Some(7));
            assert_eq!(known[1].rate_limit, None);
        }
        _ => panic!("the accounts are weighed"),
    }
}

#[test]
fn what_cannot_be_read_fails_the_request() {
    let catalog = plain();
    let unavailable = Some(ProviderErrorKind::ProviderInfrastructureUnavailable);
    let (machine, _) = Machine::new(request());
    let (_, action) =
        machine.step(&catalog, SelectionEvent::Listed { accounts: None, left: None });
    assert_eq!(failure(action), unavailable);
    let (machine, _) = list(request(), &catalog, vec![listed("a")]);
    let (_, action) = machine.step(&catalog, SelectionEvent::StateLoaded(None));
    assert_eq!(failure(action), unavailable);
    for (known, read) in [("a", None), ("b", Some(None))] {
        let (machine, _) = list(request(), &catalog, vec![listed("a")]);
        let (machine, _) =
            machine.step(&catalog, SelectionEvent::StateLoaded(Some(state(&[known]))));
        let (_, action) =
            machine.step(&catalog, SelectionEvent::CooldownsRead(vec![read]));
        assert_eq!(failure(action), unavailable);
    }
    let (machine, _) = choosing(3, vec![])
        .step(&catalog, SelectionEvent::Chosen(PolicyReply::Selected(0)));
    let (_, action) = machine.step(&catalog, SelectionEvent::Leased(LeaseReply::Failed));
    assert_eq!(failure(action), unavailable);
    let (machine, _) = choosing(3, vec![])
        .step(&catalog, SelectionEvent::Chosen(PolicyReply::Selected(0)));
    let (machine, _) = machine.step(&catalog, SelectionEvent::Leased(LeaseReply::Acquired));
    let (_, action) = machine.step(&catalog, SelectionEvent::Loaded(None));
    assert_eq!(failure(action), unavailable);
}
