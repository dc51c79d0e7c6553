use gateway_plugin::account::{
    CredentialFacts, CredentialState, LoadedCredential, ProviderAccount,
};
use gateway_plugin::authorization::poll::{
    LoginOutcome, LoginPolling, PendingLogin, PollAction, PollEvent, PollPhase, PollRequest,
};
use gateway_plugin::authorization::start::{
    LoginStarting, StartAction, StartEvent, StartPhase, StartRequest,
};
use gateway_plugin::authorization::{
    authorize_login, begin_login, begin_poll, check_pending, claimed, consumed, keep_login,
    keep_new_login, login_kept, login_started, new_claim, open_login, owner_binding, poll_answered,
    released, AuthorizationMutationTarget, AuthorizationOwner, ClaimReply, ConsumeReply, LoginGuard,
    LoginPollResult, LoginStarted, PendingMutation, PollStep, PutReply, ReleaseReply,
};
use gateway_plugin::credential_form::{prepare_inputs, CredentialForms, CredentialInputs};
use gateway_plugin::fault::{
    AdminErrorKind, AdminReason, ProviderAdminError, ProviderAdminErrorKind, UpstreamSendState,
};
use gateway_plugin::json::Json;
use gateway_plugin::management::ProviderOperation;
use gateway_plugin::manifest::CredentialOperation;
use gateway_plugin::provider_ports::ProviderRefreshPolicy;
use gateway_plugin::rotation::lock::{LockAction, LockEvent, LockPhase};
use gateway_plugin::rotation::LeaseReply;

fn kind<T>(result: Result<T, ProviderAdminError>) -> Option<ProviderAdminErrorKind> {
    result.err().map(|error| error.kind)
}

fn started(url: &str, expires_at_ms: i64) -> LoginStarted {
    LoginStarted {
        authorization_url: url.to_owned(),
        expires_at_ms,
        state: vec![("code".to_owned(), Json::text("c"))],
    }
}

fn facts() -> CredentialFacts {
    CredentialFacts {
        name: "name".to_owned(),
        authentication_kind: "oauth".to_owned(),
        material: vec![("token".to_owned(), Json::text("t"))],
        email: None,
        upstream_user_id: None,
        upstream_account_id: None,
        plan_type: None,
        has_refresh_token: true,
        access_token_expires_at_ms: None,
        next_refresh_at_ms: None,
    }
}

#[test]
fn logins_are_declared_and_for_the_right_provider() {
    let login = vec![CredentialOperation::Login];
    assert_eq!(kind(authorize_login(&login, "custom", "custom")), None);
    assert_eq!(
        kind(authorize_login(&vec![], "custom", "custom")),
        Some(ProviderAdminErrorKind::Unsupported)
    );
    assert_eq!(
        kind(authorize_login(&login, "other", "custom")),
        Some(ProviderAdminErrorKind::Invalid)
    );
    let forms =
        CredentialForms { import: None, rotate: None, login: None, refresh: None, export: None };
    let inputs = prepare_inputs(&login, forms).ok().expect("forms");
    let create = AuthorizationMutationTarget::Create { name: "new".to_owned() };
    let start = begin_login(&login, &inputs, "custom", "custom", &create, vec![])
        .ok()
        .expect("a login");
    assert_eq!(start.name.as_deref(), Some("new"));
    assert_eq!(start.account_id, None);
    let again = AuthorizationMutationTarget::Reauthorize { account_id: "acct".to_owned() };
    let start = begin_login(&login, &inputs, "custom", "custom", &again, vec![])
        .ok()
        .expect("a login");
    assert_eq!((start.name, start.account_id.as_deref()), (None, Some("acct")));
    let extra = vec![("x".to_owned(), Json::Null)];
    assert_eq!(
        kind(begin_login(&login, &inputs, "custom", "custom", &create, extra)),
        Some(ProviderAdminErrorKind::Invalid)
    );
}

#[test]
fn a_login_leads_to_a_web_address_and_ends_soon() {
    let url = "https://example.com/login";
    assert_eq!(login_started(UpstreamSendState::NotSent, &started(url, 2_000), 1_000_000_000).ok(), Some(1_000_000_000));
    assert!(login_started(UpstreamSendState::NotSent, &started(url, 1_800_000), 0).is_ok());
    let mut long = started(url, 1);
    long.state = vec![("s".to_owned(), Json::text(&"x".repeat(65_536)))];
    for refused in [
        login_started(UpstreamSendState::NotSent, &started(url, 1_800_001), 0),
        login_started(UpstreamSendState::NotSent, &started(url, 0), 0),
        login_started(UpstreamSendState::NotSent, &started(url, 1), 2_000_000),
        login_started(UpstreamSendState::NotSent, &started(url, i64::MAX), 0),
        login_started(UpstreamSendState::NotSent, &started("ftp://example.com/", 1), 0),
        login_started(UpstreamSendState::NotSent, &started(&format!("{url}?{}", "x".repeat(8192)), 1), 0),
        login_started(UpstreamSendState::NotSent, &long, 0),
    ] {
        assert_eq!(kind(refused), Some(ProviderAdminErrorKind::BadGateway));
    }
}

#[test]
fn owners_are_told_apart() {
    let session =
        |id: &str| AuthorizationOwner::AdminSession { admin_user_id: id.to_owned() };
    for owner in [session("1"), AuthorizationOwner::AdminApiKey, AuthorizationOwner::System] {
        assert!(owner_binding(&owner).is_ok());
    }
    assert!(new_claim("flow", &session("1")).is_ok());
    assert_eq!(
        kind(new_claim("", &AuthorizationOwner::System)),
        Some(ProviderAdminErrorKind::Invalid)
    );
}

#[test]
fn a_kept_login_is_opened_again() {
    let mutation = vec![("name".to_owned(), Json::text("new"))];
    let kept = keep_login(
        "flow",
        "custom",
        "binding",
        &AuthorizationOwner::System,
        1_000_000_000,
        mutation,
        started("https://example.com/", 2_000),
    )
    .ok()
    .expect("a kept login");
    assert_eq!(kept.provider, "custom");
    assert_eq!(kept.ttl_nanos, 1_000_000_000);
    let payload = || {
        kept.payload.iter().map(|(name, value)| (name.clone(), value.copy())).collect::<Vec<_>>()
    };
    let opened = open_login(payload(), "binding", 1_999).ok().expect("a login");
    assert_eq!(opened.version, 1);
    assert_eq!(opened.expires_at_ms, 2_000);
    assert_eq!(opened.state.len(), 1);
    for refused in [
        open_login(payload(), "other", 1_999),
        open_login(payload(), "binding", 2_000),
        open_login(vec![], "binding", 0),
    ] {
        assert_eq!(kind(refused), Some(ProviderAdminErrorKind::Invalid));
    }
    let (flow, shown) = keep_new_login(
        "custom",
        "binding",
        &AuthorizationOwner::System,
        1_000,
        vec![],
        started("https://example.com/", 2_000),
    )
    .ok()
    .expect("a kept login");
    assert_eq!(shown.flow_id.len(), 36);
    assert_eq!(shown.authorization_url, "https://example.com/");
    assert_eq!(flow.provider, "custom");
}

#[test]
fn replies_of_the_store_are_told() {
    assert_eq!(kind(login_kept(PutReply::Stored)), None);
    assert_eq!(kind(login_kept(PutReply::Exists)), Some(ProviderAdminErrorKind::Unavailable));
    assert_eq!(kind(login_kept(PutReply::Failed)), Some(ProviderAdminErrorKind::Unavailable));
    assert_eq!(kind(claimed(ClaimReply::Claimed(vec![]))), None);
    for (reply, expected) in [
        (ClaimReply::NotFound, ProviderAdminErrorKind::NotFound),
        (ClaimReply::OwnerMismatch, ProviderAdminErrorKind::Invalid),
        (ClaimReply::InProgress, ProviderAdminErrorKind::Conflict),
        (ClaimReply::Failed, ProviderAdminErrorKind::Unavailable),
    ] {
        assert_eq!(kind(claimed(reply)), Some(expected));
    }
    assert!(released(ReleaseReply::Released).is_ok());
    assert!(released(ReleaseReply::NotFound).is_ok());
    let error = released(ReleaseReply::Failed).expect_err("the store failed");
    assert_eq!((error.kind, error.reason), (AdminErrorKind::Unavailable, AdminReason::LoginRelease));
    assert!(consumed(ConsumeReply::Consumed).is_ok());
    let error = consumed(ConsumeReply::Failed).expect_err("the store failed");
    assert_eq!(error.reason, AdminReason::LoginSettlement);
    let mut guard = LoginGuard { held: true };
    assert!(guard.take().is_ok());
    let error = guard.take().expect_err("the claim is gone");
    assert_eq!((error.kind, error.reason), (AdminErrorKind::Internal, AdminReason::LoginMissing));
}

#[test]
fn polls_are_checked() {
    let login = vec![CredentialOperation::Login];
    assert_eq!(kind(begin_poll(&login, &None)), None);
    assert_eq!(kind(begin_poll(&vec![], &None)), Some(ProviderAdminErrorKind::Unsupported));
    assert_eq!(kind(begin_poll(&login, &Some("x".repeat(65_536)))), None);
    assert_eq!(
        kind(begin_poll(&login, &Some("x".repeat(65_537)))),
        Some(ProviderAdminErrorKind::Invalid)
    );
    let pending = |provider: &str, owner_matches| PendingMutation {
        provider: provider.to_owned(),
        owner_matches,
    };
    assert_eq!(kind(check_pending(Some(&pending("custom", true)), &login, "custom")), None);
    for refused in [
        check_pending(None, &login, "custom"),
        check_pending(Some(&pending("custom", false)), &login, "custom"),
        check_pending(Some(&pending("other", true)), &login, "custom"),
    ] {
        assert_eq!(kind(refused), Some(ProviderAdminErrorKind::Invalid));
    }
}

#[test]
fn the_answer_to_a_poll_is_checked() {
    let wait = |retry_after_ms| LoginPollResult::Pending { retry_after_ms };
    let done = |n: usize| LoginPollResult::Complete { accounts: (0..n).map(|_| facts()).collect() };
    assert!(matches!(
        poll_answered(UpstreamSendState::NotSent, wait(300_000), 10, 9, false),
        Ok(PollStep::Pending { retry_after_ms: 300_000 })
    ));
    assert!(matches!(
        poll_answered(UpstreamSendState::NotSent, done(2), 10, 9, false),
        Ok(PollStep::Create(accounts)) if accounts.len() == 2
    ));
    assert!(matches!(poll_answered(UpstreamSendState::NotSent, done(1), 10, 9, true), Ok(PollStep::Replace(_))));
    for refused in [
        poll_answered(UpstreamSendState::NotSent, wait(0), 10, 9, false),
        poll_answered(UpstreamSendState::NotSent, wait(300_001), 10, 9, false),
        poll_answered(UpstreamSendState::NotSent, done(1), 10, 10, false),
        poll_answered(UpstreamSendState::NotSent, done(2), 10, 9, true),
        poll_answered(UpstreamSendState::NotSent, done(0), 10, 9, true),
    ] {
        assert_eq!(kind(refused), Some(ProviderAdminErrorKind::BadGateway));
    }
    assert_eq!(
        kind(poll_answered(UpstreamSendState::Sent, wait(0), 10, 9, false)),
        Some(ProviderAdminErrorKind::Ambiguous)
    );
}

fn account(revision: u64) -> ProviderAccount {
    ProviderAccount {
        id: "acct".to_owned(),
        provider: "custom".to_owned(),
        revision,
        name: "name".to_owned(),
        email: None,
        authentication_kind: "oauth".to_owned(),
        upstream_user_id: None,
        upstream_account_id: None,
        plan_type: None,
        has_refresh_token: true,
        access_token_expires_at_ms: None,
        next_refresh_at_ms: None,
        enabled: true,
        credential_state: CredentialState::Ready,
        has_error: false,
        outbound_proxy: None,
    }
}

fn loaded(revision: u64) -> Result<LoadedCredential, ProviderAdminError> {
    Ok(LoadedCredential { account: account(revision), credential: vec![] })
}

fn forms(operations: &Vec<CredentialOperation>) -> CredentialInputs {
    let forms =
        CredentialForms { import: None, rotate: None, login: None, refresh: None, export: None };
    prepare_inputs(operations, forms).ok().expect("forms")
}

fn starting(
    target: &AuthorizationMutationTarget,
) -> Result<(LoginStarting, StartAction), ProviderAdminError> {
    let login = vec![CredentialOperation::Login];
    let request = StartRequest {
        kind: "custom".to_owned(),
        binding: "binding".to_owned(),
        owner: AuthorizationOwner::System,
        outbound_proxy: Some("proxy".to_owned()),
        mutation: vec![("name".to_owned(), Json::text("new"))],
    };
    LoginStarting::new(&login, &forms(&login), "custom", target, vec![], request)
}

fn start_answer(url: &str) -> StartEvent {
    StartEvent::Answered {
        answer: Ok(started(url, 2_000)),
        state: UpstreamSendState::Sent,
        now_nanos: 1_000_000_000,
    }
}

#[test]
fn people_are_sent_once_their_login_is_kept() {
    let create = AuthorizationMutationTarget::Create { name: "new".to_owned() };
    let (login, action) = starting(&create).ok().expect("a login");
    let StartAction::Ask(call) = action else { panic!("the plugin is asked") };
    assert_eq!(call.operation, ProviderOperation::Login);
    assert_eq!(call.scope.proxy.as_deref(), Some("proxy"));
    let (login, action) = login.step(start_answer("https://example.com/"));
    let StartAction::Store(flow) = action else { panic!("the login is kept") };
    assert_eq!((flow.provider.as_str(), flow.ttl_nanos), ("custom", 1_000_000_000));
    let opened = open_login(flow.payload, "binding", 1_999).ok().expect("a login");
    assert_eq!(opened.mutation.len(), 1);
    let (login, action) = login.step(StartEvent::Stored(PutReply::Stored));
    assert!(matches!(login.phase, StartPhase::Ended));
    let StartAction::Send(shown) = action else { panic!("people are sent") };
    assert_eq!(shown.authorization_url, "https://example.com/");
}

#[test]
fn a_login_that_cannot_be_kept_is_not_started() {
    let create = AuthorizationMutationTarget::Create { name: "new".to_owned() };
    let (login, _) = starting(&create).ok().expect("a login");
    let (login, _) = login.step(start_answer("https://example.com/"));
    let (_, action) = login.step(StartEvent::Stored(PutReply::Exists));
    assert!(matches!(
        action,
        StartAction::Fail(error) if error.kind == ProviderAdminErrorKind::Unavailable
    ));
    let (login, _) = starting(&create).ok().expect("a login");
    let (_, action) = login.step(start_answer("ftp://example.com/"));
    assert!(matches!(
        action,
        StartAction::Fail(error) if error.kind == ProviderAdminErrorKind::Ambiguous
    ));
    let again = AuthorizationMutationTarget::Reauthorize { account_id: "acct".to_owned() };
    let (login, action) = starting(&again).ok().expect("a login");
    assert!(matches!(action, StartAction::LoadCredential));
    let (_, action) = login.step(StartEvent::CredentialLoaded(loaded(4)));
    let StartAction::Ask(call) = action else { panic!("the plugin is asked") };
    assert_eq!(call.context.credential_revision, Some(4));
}

fn stored_login() -> Vec<(String, Json)> {
    keep_login(
        "flow",
        "custom",
        "binding",
        &AuthorizationOwner::System,
        1_000_000_000,
        vec![],
        started("https://example.com/", 2_000),
    )
    .ok()
    .expect("a kept login")
    .payload
}

fn pending_login(owner_matches: bool, target: AuthorizationMutationTarget) -> PollEvent {
    PollEvent::RequestRead(Some(PendingLogin {
        pending: PendingMutation { provider: "custom".to_owned(), owner_matches },
        target,
        outbound_proxy: None,
    }))
}

fn polling() -> LoginPolling {
    let login = vec![CredentialOperation::Login];
    let request = PollRequest { kind: "custom".to_owned(), binding: "binding".to_owned() };
    let (polling, action) =
        LoginPolling::new(&login, &None, "flow", &AuthorizationOwner::System, request)
            .ok()
            .expect("a question");
    assert!(matches!(action, PollAction::Claim(_)));
    polling
}

fn poll(polling: LoginPolling, event: PollEvent) -> (LoginPolling, PollAction) {
    polling.step(&vec![CredentialOperation::Login], event)
}

fn hold(now_ms: i64) -> PollEvent {
    PollEvent::Claimed { reply: ClaimReply::Claimed(stored_login()), now_ms }
}

fn complete(now_ms: i64) -> PollEvent {
    PollEvent::Answered {
        answer: Ok(LoginPollResult::Complete { accounts: vec![facts()] }),
        state: UpstreamSendState::NotSent,
        now_ms,
    }
}

fn let_go(polling: LoginPolling, action: PollAction) -> PollAction {
    assert!(matches!(action, PollAction::Release));
    poll(polling, PollEvent::Released(ReleaseReply::Released)).1
}

#[test]
fn a_login_that_is_not_complete_is_let_go() {
    let create = || AuthorizationMutationTarget::Create { name: "new".to_owned() };
    let (_, action) = poll(polling(), PollEvent::Claimed { reply: ClaimReply::InProgress, now_ms: 0 });
    assert!(matches!(
        action,
        PollAction::Fail(error) if error.kind == ProviderAdminErrorKind::Conflict
    ));
    let (late, action) = poll(polling(), hold(2_000));
    assert!(matches!(
        let_go(late, action),
        PollAction::Fail(error) if error.kind == ProviderAdminErrorKind::Invalid
    ));
    let (held, action) = poll(polling(), hold(1_000));
    assert!(matches!(action, PollAction::ReadRequest));
    let (strange, action) = poll(held, pending_login(false, create()));
    assert!(matches!(
        let_go(strange, action),
        PollAction::Fail(error) if error.kind == ProviderAdminErrorKind::Invalid
    ));
    let (held, _) = poll(polling(), hold(1_000));
    let (asking, action) = poll(held, pending_login(true, create()));
    assert!(matches!(action, PollAction::Ask(_)));
    let wait = PollEvent::Answered {
        answer: Ok(LoginPollResult::Pending { retry_after_ms: 7 }),
        state: UpstreamSendState::NotSent,
        now_ms: 1_000,
    };
    let (waiting, action) = poll(asking, wait);
    assert!(matches!(let_go(waiting, action), PollAction::Wait { retry_after_ms: 7 }));
    let (held, _) = poll(polling(), hold(1_000));
    let (asking, _) = poll(held, pending_login(true, create()));
    let (late, action) = poll(asking, complete(2_000));
    assert!(matches!(action, PollAction::Release));
    let (_, action) = poll(late, PollEvent::Released(ReleaseReply::Failed));
    assert!(matches!(
        action,
        PollAction::Fail(error) if error.kind == ProviderAdminErrorKind::Unavailable
    ));
}

#[test]
fn a_complete_login_is_held() {
    let create = AuthorizationMutationTarget::Create { name: "new".to_owned() };
    let (held, _) = poll(polling(), hold(1_000));
    let (asking, _) = poll(held, pending_login(true, create));
    let (ended, action) = poll(asking, complete(1_999));
    assert!(matches!(ended.phase, PollPhase::Ended));
    assert!(matches!(
        action,
        PollAction::Complete(LoginOutcome::Create(created)) if created.len() == 1
    ));
}

#[test]
fn an_account_is_logged_in_again_under_the_lock() {
    let again = AuthorizationMutationTarget::Reauthorize { account_id: "acct".to_owned() };
    let (held, _) = poll(polling(), hold(1_000));
    let (mut locking, action) = poll(held, pending_login(true, again));
    assert!(matches!(action, PollAction::Lock(LockAction::Load)));
    for event in [
        LockEvent::Loaded(loaded(4)),
        LockEvent::PolicyRead(Some(ProviderRefreshPolicy { margin: 0, concurrency: 2 })),
        LockEvent::PlaceAsked(LeaseReply::Acquired),
        LockEvent::CredentialAsked(LeaseReply::Acquired),
    ] {
        let (next, action) = poll(locking, PollEvent::Lock(event));
        assert!(matches!(action, PollAction::Lock(_)));
        locking = next;
    }
    assert!(matches!(locking.phase, PollPhase::Locking { lock: LockPhase::Reloading { revision: 4 }, .. }));
    let (asking, action) = poll(locking, PollEvent::Lock(LockEvent::Reloaded(loaded(4))));
    let PollAction::Ask(call) = action else { panic!("the plugin is asked") };
    assert_eq!(call.context.account_id.as_deref(), Some("acct"));
    let (_, action) = poll(asking, complete(1_999));
    assert!(matches!(
        action,
        PollAction::Complete(LoginOutcome::Reauthorize(changed))
            if changed.expected_credential_revision == 4 && changed.preserve_profile
    ));
}
