use gateway_plugin::account::{
    same_credential_facts, same_identity, CredentialFacts, CredentialState, LoadedCredential,
    ProviderAccount,
};
use gateway_plugin::fault::{
    AdminErrorKind, ErrorCode, PluginFault, ProviderAdminError, ProviderAdminErrorKind, RpcError,
    UpstreamSendState,
};
use gateway_plugin::json::Json;
use gateway_plugin::management::{
    ensure_management_identity, ensure_provider, managed_account, managed_credential,
    management_call, management_call_from, map_account_save_error, map_read_error, mutating,
    ManagementOrigin, ProviderOperation, StoreReply,
};
use gateway_plugin::manifest::Stage;

fn account() -> ProviderAccount {
    ProviderAccount {
        id: "acct".to_owned(),
        provider: "custom".to_owned(),
        revision: 4,
        name: "name".to_owned(),
        email: None,
        authentication_kind: "oauth".to_owned(),
        upstream_user_id: Some("user".to_owned()),
        upstream_account_id: None,
        plan_type: None,
        has_refresh_token: true,
        access_token_expires_at_ms: None,
        next_refresh_at_ms: None,
        enabled: true,
        credential_state: CredentialState::Ready,
        has_error: false,
        outbound_proxy: None,
    }
}

fn task(revision: Option<u64>) -> ManagementOrigin {
    ManagementOrigin::Maintenance { task_id: "task".to_owned(), credential_revision: revision }
}

fn kind<T>(result: Result<T, ProviderAdminError>) -> Option<ProviderAdminErrorKind> {
    result.err().map(|error| error.kind)
}

fn remote(send_state: UpstreamSendState) -> RpcError {
    RpcError::Remote(PluginFault { code: ErrorCode::Timeout, send_state, http_status: None })
}

#[test]
fn a_person_calls_at_the_management_stage() {
    let account = account();
    let call = management_call(ProviderOperation::Quota, Some(&account), Some("proxy".to_owned()))
        .ok()
        .expect("a call");
    assert_eq!(call.context.stage, Stage::Management);
    assert_eq!(call.context.request_id, None);
    assert_eq!(call.context.account_id.as_deref(), Some("acct"));
    assert_eq!(call.context.credential_revision, Some(4));
    assert_eq!(call.context.timeout_ms, 30_000);
    assert_eq!(call.scope.proxy.as_deref(), Some("proxy"));
    assert!(call.scope.authorizes(&call.context));
}

#[test]
fn a_task_finds_the_account_as_it_read_it() {
    let found = account();
    let call = management_call_from(ProviderOperation::Quota, Some(&found), None, &task(Some(4)))
        .ok()
        .expect("a call");
    assert_eq!(call.context.stage, Stage::Maintenance);
    assert_eq!(call.context.request_id.as_deref(), Some("task"));
    let refused = |operation, account: Option<&ProviderAccount>, origin: ManagementOrigin| {
        kind(management_call_from(operation, account, None, &origin))
            == Some(ProviderAdminErrorKind::Conflict)
    };
    assert!(refused(ProviderOperation::Quota, Some(&found), task(Some(5))));
    assert!(refused(ProviderOperation::Quota, None, task(Some(4))));
    let off = ProviderAccount { enabled: false, ..account() };
    assert!(refused(ProviderOperation::Refresh, Some(&off), task(Some(4))));
    let expired = ProviderAccount { credential_state: CredentialState::Expired, ..account() };
    assert!(refused(ProviderOperation::Quota, Some(&expired), task(Some(4))));
    assert!(!refused(ProviderOperation::Refresh, Some(&expired), task(Some(4))));
    assert!(!refused(ProviderOperation::Profile, None, task(None)));
}

#[test]
fn what_may_have_been_sent_is_not_reported_as_failed() {
    let account = account();
    let mut call = management_call(ProviderOperation::Rotate, Some(&account), None)
        .ok()
        .expect("a call");
    assert_eq!(call.invalid_result().kind, ProviderAdminErrorKind::BadGateway);
    assert_ne!(call.map_error(RpcError::Timeout).kind, ProviderAdminErrorKind::Ambiguous);
    assert_eq!(
        call.map_error(remote(UpstreamSendState::Sent)).kind,
        ProviderAdminErrorKind::Ambiguous
    );
    let attempt = call.scope.start_http();
    call.scope.finish(attempt, UpstreamSendState::Sent);
    assert_eq!(call.invalid_result().kind, ProviderAdminErrorKind::Ambiguous);
    assert_eq!(call.map_error(RpcError::Timeout).kind, ProviderAdminErrorKind::Ambiguous);
    let read = management_call(ProviderOperation::Quota, Some(&account), None).ok().expect("a call");
    assert_ne!(
        read.map_error(remote(UpstreamSendState::Sent)).kind,
        ProviderAdminErrorKind::Ambiguous
    );
    let consume = management_call(ProviderOperation::ConsumeResetCredit, Some(&account), None)
        .ok()
        .expect("a call");
    assert_eq!(consume.invalid_result().kind, ProviderAdminErrorKind::Ambiguous);
    assert_eq!(consume.map_error(RpcError::Closed).kind, ProviderAdminErrorKind::Ambiguous);
}

#[test]
fn answers_are_taken_as_they_should_be() {
    let read = management_call(ProviderOperation::Quota, None, None).ok().expect("a call");
    let empty = Json::Object(vec![]);
    assert_eq!(read.replied(&empty, Some(5)).ok(), Some(5));
    assert_eq!(read.opened(&vec![], Some(6)).ok(), Some(6));
    for refused in [
        read.replied::<u8>(&empty, None),
        read.replied(&Json::Null, Some(5)),
        read.opened::<u8>(&vec![], None),
        read.opened(&vec![1], Some(6)),
    ] {
        assert_eq!(kind(refused), Some(ProviderAdminErrorKind::BadGateway));
    }
}

#[test]
fn only_some_operations_change_something() {
    for operation in [
        ProviderOperation::Import,
        ProviderOperation::Rotate,
        ProviderOperation::Refresh,
        ProviderOperation::Login,
        ProviderOperation::ConsumeResetCredit,
    ] {
        assert!(mutating(operation));
    }
    for operation in [
        ProviderOperation::Quota,
        ProviderOperation::Models,
        ProviderOperation::Profile,
        ProviderOperation::ResetCredits,
    ] {
        assert!(!mutating(operation));
    }
}

#[test]
fn failures_of_the_store_are_told() {
    assert_eq!(
        map_account_save_error(AdminErrorKind::Internal).kind,
        ProviderAdminErrorKind::Internal
    );
    assert_eq!(map_read_error(RpcError::Closed).kind, ProviderAdminErrorKind::Unavailable);
    assert_eq!(kind(ensure_provider("custom", "custom")), None);
    assert_eq!(kind(ensure_provider("custom", "other")), Some(ProviderAdminErrorKind::Invalid));
    assert_eq!(
        kind(managed_account(StoreReply::Done(None), "custom")),
        Some(ProviderAdminErrorKind::NotFound)
    );
    assert_eq!(
        kind(managed_account(StoreReply::Failed, "custom")),
        Some(ProviderAdminErrorKind::Unavailable)
    );
    assert_eq!(kind(managed_account(StoreReply::Done(Some(account())), "custom")), None);
    assert_eq!(
        kind(managed_account(StoreReply::Done(Some(account())), "other")),
        Some(ProviderAdminErrorKind::Invalid)
    );
    assert_eq!(
        kind(managed_credential(StoreReply::Conflict)),
        Some(ProviderAdminErrorKind::Conflict)
    );
    assert_eq!(
        kind(ensure_management_identity(StoreReply::Done(Some(account())), &account())),
        None
    );
    let moved = ProviderAccount { revision: 5, ..account() };
    assert_eq!(
        kind(ensure_management_identity(StoreReply::Done(Some(moved)), &account())),
        Some(ProviderAdminErrorKind::Conflict)
    );
}

#[test]
fn accounts_are_told_apart_by_who_they_are() {
    assert!(same_identity(&account(), &account()));
    let renamed = ProviderAccount { name: "other".to_owned(), ..account() };
    assert!(same_identity(&account(), &renamed));
    let moved = ProviderAccount { revision: 5, ..account() };
    assert!(!same_identity(&account(), &moved));
}

fn facts() -> CredentialFacts {
    CredentialFacts {
        name: "name".to_owned(),
        authentication_kind: "oauth".to_owned(),
        material: vec![("token".to_owned(), Json::text("t"))],
        email: None,
        upstream_user_id: Some("user".to_owned()),
        upstream_account_id: None,
        plan_type: None,
        has_refresh_token: true,
        access_token_expires_at_ms: None,
        next_refresh_at_ms: None,
    }
}

#[test]
fn a_credential_that_did_not_change_is_recognised() {
    let loaded = LoadedCredential {
        account: account(),
        credential: vec![("token".to_owned(), Json::text("t"))],
    };
    assert!(same_credential_facts(&loaded, &facts()));
    let other = CredentialFacts {
        material: vec![("token".to_owned(), Json::text("u"))],
        ..facts()
    };
    assert!(!same_credential_facts(&loaded, &other));
    let longer = CredentialFacts { access_token_expires_at_ms: Some(1), ..facts() };
    assert!(!same_credential_facts(&loaded, &longer));
}
