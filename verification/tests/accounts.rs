use gateway_plugin::account::{
    CredentialFacts, CredentialState, LoadedCredential, ProviderAccount,
};
use gateway_plugin::credential_form::{prepare_inputs, CredentialForms, CredentialInputs};
use gateway_plugin::credentials::{
    exported_document, prepare_created_credentials, prepare_export, take_created, validate_facts,
    ExportInput,
};
use gateway_plugin::fault::{ProviderAdminError, ProviderAdminErrorKind, UpstreamSendState};
use gateway_plugin::json::{json_eq, Json};
use gateway_plugin::management::{ManagementOrigin, ProviderOperation};
use gateway_plugin::manifest::{AccountOperation, CredentialOperation};
use gateway_plugin::provider_ports::ProviderRefreshPolicy;
use gateway_plugin::reset_credits::{
    prepare_redeem, query_reset_credits, redeem_reset_credit, ConsumeResetCredit,
    ProviderResetCredit, ProviderResetCreditResult, ProviderResetCredits, Reply,
};
use gateway_plugin::rotation::change::{Rotation, RotationAction, RotationEvent, RotationPhase};
use gateway_plugin::rotation::lock::{LockAction, LockEvent};
use gateway_plugin::rotation::{
    begin, ensure_revision, leased, prepare_changed_credential, take_changed, CredentialChange,
    LeaseReply,
};

fn account() -> ProviderAccount {
    ProviderAccount {
        id: "acct".to_owned(),
        provider: "custom".to_owned(),
        revision: 4,
        name: "name".to_owned(),
        email: None,
        authentication_kind: "oauth".to_owned(),
        upstream_user_id: Some("user".to_owned()),
        upstream_account_id: None,
        plan_type: None,
        has_refresh_token: true,
        access_token_expires_at_ms: Some(5),
        next_refresh_at_ms: None,
        enabled: true,
        credential_state: CredentialState::Ready,
        has_error: false,
        outbound_proxy: None,
    }
}

fn facts() -> CredentialFacts {
    CredentialFacts {
        name: "name".to_owned(),
        authentication_kind: "oauth".to_owned(),
        material: vec![("token".to_owned(), Json::text("t"))],
        email: Some("a@example.com".to_owned()),
        upstream_user_id: Some("user".to_owned()),
        upstream_account_id: None,
        plan_type: None,
        has_refresh_token: true,
        access_token_expires_at_ms: Some(1_000),
        next_refresh_at_ms: None,
    }
}

fn kind<T>(result: Result<T, ProviderAdminError>) -> Option<ProviderAdminErrorKind> {
    result.err().map(|error| error.kind)
}

#[test]
fn facts_of_a_credential_are_checked() {
    assert_eq!(kind(validate_facts(&facts())), None);
    for broken in [
        CredentialFacts { name: "  ".to_owned(), ..facts() },
        CredentialFacts { name: "x".repeat(201), ..facts() },
        CredentialFacts { authentication_kind: "x".repeat(65), ..facts() },
        CredentialFacts { email: Some("a\tb".to_owned()), ..facts() },
        CredentialFacts { plan_type: Some(String::new()), ..facts() },
        CredentialFacts { material: vec![], ..facts() },
    ] {
        assert_eq!(kind(validate_facts(&broken)), Some(ProviderAdminErrorKind::Invalid));
    }
}

#[test]
fn new_accounts_get_names_of_their_own() {
    let proxy = Some("proxy".to_owned());
    let created = prepare_created_credentials(vec![facts(), facts()], "custom", &proxy, 9)
        .ok()
        .expect("accounts");
    assert_eq!(created.len(), 2);
    for one in &created {
        assert!(one.account_id.starts_with("acct_"));
        assert_eq!(one.account_id.len(), 37);
        assert!(one.account_id[5..].bytes().all(|b| matches!(b, b'0'..=b'9' | b'a'..=b'f')));
        assert_eq!(one.provider_kind, "custom");
        assert_eq!(one.outbound_proxy, proxy);
        assert_eq!(one.email.as_deref(), Some("a@example.com"));
        assert_eq!(one.access_token_expires_at_ms, Some(1_000));
        assert_eq!(one.credential_observed_at_ms, 9);
        assert_eq!(one.credential_state, CredentialState::Ready);
        assert!(one.enabled);
    }
    assert_ne!(created[0].account_id, created[1].account_id);
    let refused = |accounts: Vec<CredentialFacts>| {
        kind(prepare_created_credentials(accounts, "custom", &None, 9))
            == Some(ProviderAdminErrorKind::Invalid)
    };
    assert!(refused(vec![]));
    assert!(refused((0..201).map(|_| facts()).collect()));
    assert!(refused(vec![CredentialFacts {
        access_token_expires_at_ms: Some(i64::MAX),
        ..facts()
    }]));
    let taken = |state| {
        kind(take_created(ProviderOperation::Import, state, vec![], "custom", &None, 9))
    };
    assert_eq!(taken(UpstreamSendState::NotSent), Some(ProviderAdminErrorKind::BadGateway));
    assert_eq!(taken(UpstreamSendState::Ambiguous), Some(ProviderAdminErrorKind::Ambiguous));
}

#[test]
fn credentials_are_exported_as_they_are() {
    let input = || ExportInput {
        account: account(),
        provider_material: vec![("token".to_owned(), Json::text("t"))],
    };
    let export = vec![CredentialOperation::Export];
    let given = prepare_export(vec![input()], &export, "custom").ok().expect("credentials");
    assert_eq!(given[0].account_id, "acct");
    assert_eq!(given[0].credential_revision, 4);
    assert_eq!(given[0].facts.access_token_expires_at_ms, Some(5));
    assert_eq!(
        kind(prepare_export(vec![input()], &vec![], "custom")),
        Some(ProviderAdminErrorKind::Unsupported)
    );
    for refused in [
        prepare_export(vec![], &export, "custom"),
        prepare_export(vec![input()], &export, "other"),
        prepare_export((0..201).map(|_| input()).collect(), &export, "custom"),
    ] {
        assert_eq!(kind(refused), Some(ProviderAdminErrorKind::Invalid));
    }
    let empty = Json::Object(vec![]);
    let document = exported_document(&empty, &br#"{"a":1}"#.to_vec()).ok().expect("a document");
    assert!(json_eq(
        &Json::Object(document),
        &Json::Object(vec![("a".to_owned(), Json::unsigned(1))])
    ));
    for refused in [
        exported_document(&Json::Null, &b"{}".to_vec()),
        exported_document(&empty, &b"[]".to_vec()),
        exported_document(&empty, &b"".to_vec()),
    ] {
        assert_eq!(kind(refused), Some(ProviderAdminErrorKind::Invalid));
    }
}

fn inputs(operations: &Vec<CredentialOperation>) -> CredentialInputs {
    let forms =
        CredentialForms { import: None, rotate: None, login: None, refresh: None, export: None };
    prepare_inputs(operations, forms).ok().expect("forms")
}

#[test]
fn a_replacement_is_declared() {
    let both = vec![CredentialOperation::Refresh, CredentialOperation::Rotate];
    let replacement = Some(vec![("token".to_owned(), Json::text("u"))]);
    assert_eq!(
        begin(&both, &inputs(&both), &account(), "custom", &None).ok(),
        Some(ProviderOperation::Refresh)
    );
    assert_eq!(
        begin(&both, &inputs(&both), &account(), "custom", &replacement).ok(),
        Some(ProviderOperation::Rotate)
    );
    assert_eq!(
        kind(begin(&both, &inputs(&both), &account(), "other", &None)),
        Some(ProviderAdminErrorKind::Invalid)
    );
    let none = vec![];
    assert_eq!(
        kind(begin(&none, &inputs(&none), &account(), "custom", &None)),
        Some(ProviderAdminErrorKind::Unsupported)
    );
    assert_eq!(kind(leased(LeaseReply::Acquired)), None);
    assert_eq!(kind(leased(LeaseReply::Busy)), Some(ProviderAdminErrorKind::Conflict));
    assert_eq!(kind(leased(LeaseReply::Failed)), Some(ProviderAdminErrorKind::Unavailable));
    assert_eq!(kind(ensure_revision(&account(), 4)), None);
    assert_eq!(
        kind(ensure_revision(&account(), 3)),
        Some(ProviderAdminErrorKind::Conflict)
    );
}

#[test]
fn a_refresh_keeps_who_the_account_is() {
    let refreshed = prepare_changed_credential(
        &account(),
        facts(),
        CredentialChange::Refresh,
        "custom",
    )
    .ok()
    .expect("a credential");
    assert!(refreshed.replacement_identity.is_none());
    assert!(refreshed.preserve_profile);
    assert_eq!(refreshed.expected_credential_revision, 4);
    let other = || CredentialFacts { upstream_user_id: Some("other".to_owned()), ..facts() };
    assert_eq!(
        kind(prepare_changed_credential(
            &account(),
            other(),
            CredentialChange::Refresh,
            "custom"
        )),
        Some(ProviderAdminErrorKind::Invalid)
    );
    let rotated =
        prepare_changed_credential(&account(), other(), CredentialChange::Rotate, "custom")
            .ok()
            .expect("a credential");
    assert_eq!(rotated.replacement_identity.expect("an identity").user, "other");
    assert!(!rotated.preserve_profile);
    for broken in [
        CredentialFacts { upstream_user_id: None, ..facts() },
        CredentialFacts { authentication_kind: "key".to_owned(), ..facts() },
        CredentialFacts { next_refresh_at_ms: Some(i64::MAX), ..facts() },
    ] {
        assert_eq!(
            kind(prepare_changed_credential(
                &account(),
                broken,
                CredentialChange::Reauthorize,
                "custom"
            )),
            Some(ProviderAdminErrorKind::Invalid)
        );
    }
    let taken = |state| {
        kind(take_changed(
            ProviderOperation::Refresh,
            state,
            &account(),
            other(),
            CredentialChange::Refresh,
            "custom",
        ))
    };
    assert_eq!(taken(UpstreamSendState::NotSent), Some(ProviderAdminErrorKind::BadGateway));
    assert_eq!(taken(UpstreamSendState::Sent), Some(ProviderAdminErrorKind::Ambiguous));
}

fn credit(id: &str) -> ProviderResetCredit {
    ProviderResetCredit {
        id: id.to_owned(),
        status: None,
        title: Some("title".to_owned()),
        expires_at_ms: Some(1),
        reset_type: None,
    }
}

#[test]
fn reset_credits_are_listed_once() {
    let listed = |credits: Vec<ProviderResetCredit>| {
        kind(query_reset_credits(Reply::Completed(ProviderResetCredits {
            available_count: 1,
            credits,
        })))
    };
    assert_eq!(listed(vec![credit("a"), credit("b")]), None);
    for broken in [
        vec![credit("a"), credit("a")],
        vec![credit(" ")],
        vec![ProviderResetCredit { expires_at_ms: Some(i64::MAX), ..credit("a") }],
        vec![ProviderResetCredit { status: Some("a\nb".to_owned()), ..credit("a") }],
    ] {
        assert_eq!(listed(broken), Some(ProviderAdminErrorKind::BadGateway));
    }
    assert_eq!(
        kind(query_reset_credits(Reply::CredentialRefreshRequired)),
        Some(ProviderAdminErrorKind::CredentialRefreshRequired)
    );
    assert_eq!(
        kind(query_reset_credits(Reply::Rejected)),
        Some(ProviderAdminErrorKind::BadGateway)
    );
}

const RANDOM: [u8; 16] = [0x12, 0x34, 0x56, 0x78, 0x9a, 0xbc, 0x4e, 0xf0, 0x81, 1, 2, 3, 4, 5, 6, 7];

#[test]
fn a_credit_is_redeemed_under_a_random_name() {
    let consume = vec![AccountOperation::ConsumeResetCredit];
    let command = |credit_id: Option<&str>, redeem_request_id| ConsumeResetCredit {
        credit_id: credit_id.map(str::to_owned),
        redeem_request_id,
    };
    let request = prepare_redeem(&command(Some("a"), RANDOM), &consume).ok().expect("a request");
    assert_eq!(request.redeem_request_id, "12345678-9abc-4ef0-8101-020304050607");
    assert_eq!(request.credit_id.as_deref(), Some("a"));
    assert_eq!(
        kind(prepare_redeem(&command(None, RANDOM), &vec![])),
        Some(ProviderAdminErrorKind::Unsupported)
    );
    let mut timed = RANDOM;
    timed[6] = 0x1e;
    for refused in [
        prepare_redeem(&command(None, timed), &consume),
        prepare_redeem(&command(Some(" "), RANDOM), &consume),
    ] {
        assert_eq!(kind(refused), Some(ProviderAdminErrorKind::Invalid));
    }
}

#[test]
fn a_credit_that_may_be_spent_is_not_spent_again() {
    let done = |code: &str, id: &str| {
        Reply::Completed(ProviderResetCreditResult {
            code: code.to_owned(),
            credit: Some(credit(id)),
        })
    };
    let wanted = Some("a".to_owned());
    assert_eq!(kind(redeem_reset_credit(&wanted, done("ok", "a"), true)), None);
    assert_eq!(kind(redeem_reset_credit(&None, done("ok", "b"), true)), None);
    for unclear in [
        redeem_reset_credit(&wanted, done("ok", "b"), true),
        redeem_reset_credit(&wanted, done(" ", "a"), true),
        redeem_reset_credit(&wanted, done("ok", ""), true),
        redeem_reset_credit(&wanted, done("ok", "a"), false),
        redeem_reset_credit(&wanted, Reply::Rejected, false),
    ] {
        assert_eq!(kind(unclear), Some(ProviderAdminErrorKind::Ambiguous));
    }
    assert_eq!(
        kind(redeem_reset_credit(&wanted, Reply::CredentialRefreshRequired, true)),
        Some(ProviderAdminErrorKind::CredentialRefreshRequired)
    );
}

fn rotation(known: u64, is_account: bool) -> Result<(Rotation, RotationAction), ProviderAdminError> {
    let both = vec![CredentialOperation::Refresh, CredentialOperation::Rotate];
    let account = ProviderAccount { revision: known, ..account() };
    let origin = ManagementOrigin::Interactive;
    Rotation::new(&both, &inputs(&both), account, "custom", None, origin, is_account)
}

fn read(revision: u64) -> Result<LoadedCredential, ProviderAdminError> {
    Ok(LoadedCredential {
        account: ProviderAccount { revision, ..account() },
        credential: vec![("token".to_owned(), Json::text("s"))],
    })
}

fn policy() -> LockEvent {
    LockEvent::PolicyRead(Some(ProviderRefreshPolicy { margin: 0, concurrency: 3 }))
}

/// Takes in what happens about the lock, and tells what is done last.
fn lock_steps(known: u64, events: Vec<LockEvent>) -> (Rotation, RotationAction) {
    let (mut rotation, mut action) = rotation(known, true).ok().expect("a replacement");
    for event in events {
        assert!(matches!(action, RotationAction::Lock(_)));
        (rotation, action) = rotation.step(RotationEvent::Lock(event));
    }
    (rotation, action)
}

#[test]
fn the_plugin_is_asked_with_what_was_read_under_the_lock() {
    assert_eq!(kind(rotation(4, false)), Some(ProviderAdminErrorKind::Invalid));
    let (_, action) = lock_steps(4, vec![LockEvent::Loaded(read(4)), policy()]);
    assert!(matches!(action, RotationAction::Lock(LockAction::TakePlace { concurrency: 3 })));
    let (_, action) = lock_steps(
        4,
        vec![LockEvent::Loaded(read(4)), policy(), LockEvent::PlaceAsked(LeaseReply::Acquired)],
    );
    assert!(matches!(action, RotationAction::Lock(LockAction::TakeCredential { revision: 4 })));
    let held = |first, second| {
        vec![
            LockEvent::Loaded(read(first)),
            policy(),
            LockEvent::PlaceAsked(LeaseReply::Acquired),
            LockEvent::CredentialAsked(LeaseReply::Acquired),
            LockEvent::Reloaded(read(second)),
        ]
    };
    let (rotation, action) = lock_steps(4, held(4, 4));
    let RotationAction::Ask(call) = action else { panic!("the plugin is asked") };
    assert_eq!(call.operation, ProviderOperation::Refresh);
    assert_eq!(call.context.credential_revision, Some(4));
    assert!(matches!(
        &rotation.phase,
        RotationPhase::Asking { credential } if credential.account.revision == 4
    ));
    let (_, action) = rotation.step(RotationEvent::Answered {
        answer: Ok(facts()),
        state: UpstreamSendState::Sent,
    });
    assert!(matches!(
        action,
        RotationAction::Replace(prepared) if prepared.expected_credential_revision == 4
    ));
    for (known, first, second) in [(4, 4, 5), (3, 4, 4)] {
        let (_, action) = lock_steps(known, held(first, second));
        assert!(matches!(
            action,
            RotationAction::Fail(error) if error.kind == ProviderAdminErrorKind::Conflict
        ));
    }
}

#[test]
fn a_credential_that_cannot_be_locked_is_not_replaced() {
    let unread = || LockEvent::Loaded(Err(ProviderAdminError {
        kind: ProviderAdminErrorKind::NotFound,
    }));
    for (events, expected) in [
        (vec![unread()], ProviderAdminErrorKind::NotFound),
        (
            vec![LockEvent::Loaded(read(4)), LockEvent::PolicyRead(None)],
            ProviderAdminErrorKind::Unavailable,
        ),
        (
            vec![LockEvent::Loaded(read(4)), policy(), LockEvent::PlaceAsked(LeaseReply::Busy)],
            ProviderAdminErrorKind::Conflict,
        ),
        (
            vec![
                LockEvent::Loaded(read(4)),
                policy(),
                LockEvent::PlaceAsked(LeaseReply::Acquired),
                LockEvent::CredentialAsked(LeaseReply::Failed),
            ],
            ProviderAdminErrorKind::Unavailable,
        ),
    ] {
        let (rotation, action) = lock_steps(4, events);
        assert!(matches!(rotation.phase, RotationPhase::Ended));
        assert!(matches!(action, RotationAction::Fail(error) if error.kind == expected));
    }
}
