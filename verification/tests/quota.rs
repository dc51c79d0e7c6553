use gateway_plugin::account::{CredentialState, LoadedCredential, ProviderAccount};
use gateway_plugin::fault::{ProviderAdminError, ProviderAdminErrorKind, ProviderErrorKind};
use gateway_plugin::forecast::{self, QuotaForecast, QuotaForecastWindow};
use gateway_plugin::json::Json;
use gateway_plugin::management::StoreReply;
use gateway_plugin::percent::{amount, percentage};
use gateway_plugin::quota::query::{QuotaAction, QuotaEvent, QuotaPhase, QuotaQuery};
use gateway_plugin::quota::{
    allowed, kept_quota, observe, pick, present, quota_state, show, store_quota, stored, validate, Quota, QuotaAccess,
    QuotaEvidence, QuotaLocalUsageAttribution, QuotaState, QuotaWindow, QuotaWindowRole,
};

fn account() -> ProviderAccount {
    ProviderAccount {
        id: "acct".to_owned(),
        provider: "custom".to_owned(),
        revision: 4,
        name: "name".to_owned(),
        email: None,
        authentication_kind: "oauth".to_owned(),
        upstream_user_id: None,
        upstream_account_id: None,
        plan_type: None,
        has_refresh_token: false,
        access_token_expires_at_ms: None,
        next_refresh_at_ms: None,
        enabled: true,
        credential_state: CredentialState::Ready,
        has_error: false,
        outbound_proxy: None,
    }
}

fn window(key: &str, used: f64) -> QuotaWindow {
    QuotaWindow {
        key: key.to_owned(),
        group: "group".to_owned(),
        label: "label".to_owned(),
        limit_id: None,
        limit_name: None,
        role: Some(QuotaWindowRole::Primary),
        account_wide: true,
        window_seconds: Some(3_600),
        used_percent: Some(used.to_bits()),
        reset_at_ms: Some(1_000),
        limit_reached: false,
        provider_data: None,
    }
}

fn quota(windows: Vec<QuotaWindow>, access: QuotaAccess) -> Quota {
    Quota {
        plan_type: Some("plus".to_owned()),
        windows,
        access,
        refresh_token_expires_at_ms: None,
        provider_data: None,
    }
}

#[test]
fn percentages_are_judged_by_their_bits() {
    for good in [0.0_f64, -0.0, 0.25, 99.9, 100.0] {
        assert!(percentage(good.to_bits()), "{good}");
    }
    for bad in [-0.1_f64, 100.000001, f64::NAN, f64::INFINITY] {
        assert!(!percentage(bad.to_bits()), "{bad}");
    }
    assert!(amount(250.0_f64.to_bits()));
    assert!(!amount((-1.0_f64).to_bits()));
    assert!(!amount(f64::NAN.to_bits()));
    assert!(!amount(f64::INFINITY.to_bits()));
}

#[test]
fn a_quota_is_checked_before_it_is_shown() {
    assert!(validate(&quota(vec![window("a", 10.0)], QuotaAccess::Allowed)).is_ok());
    let broken = [
        quota(vec![window("a", f64::NAN)], QuotaAccess::Allowed),
        quota(vec![window("a", -1.0)], QuotaAccess::Allowed),
        quota(vec![window("", 1.0)], QuotaAccess::Allowed),
        quota(vec![window("a", 1.0), window("a", 2.0)], QuotaAccess::Allowed),
        quota((0..65).map(|i| window(&format!("w{i}"), 1.0)).collect(), QuotaAccess::Allowed),
        quota(
            vec![],
            QuotaAccess::Exhausted {
                evidence: QuotaEvidence::ProviderDenied,
                reset_at_ms: Some(i64::MAX),
            },
        ),
    ];
    for one in &broken {
        assert!(validate(one).is_err());
    }
}

#[test]
fn a_quota_is_shown_as_it_was_answered() {
    let shown = present(quota(vec![window("a", 10.0)], QuotaAccess::Allowed), 77)
        .ok()
        .expect("a quota");
    assert_eq!(shown.plan_type.as_deref(), Some("plus"));
    assert_eq!(shown.observed_at_us, Some(77));
    assert!(!shown.limit_reached);
    assert_eq!(shown.windows.len(), 1);
    assert_eq!(shown.windows[0].used_percent, Some(10.0_f64.to_bits()));
    assert_eq!(
        shown.windows[0].local_usage_attribution,
        QuotaLocalUsageAttribution::AccountWide
    );
    let mut narrow = window("a", 10.0);
    narrow.account_wide = false;
    let shown = present(quota(vec![narrow], QuotaAccess::Allowed), 77).ok().expect("a quota");
    assert_eq!(
        shown.windows[0].local_usage_attribution,
        QuotaLocalUsageAttribution::Unavailable
    );
    let exhausted = QuotaAccess::Exhausted {
        evidence: QuotaEvidence::UsageLimitReached,
        reset_at_ms: Some(5),
    };
    assert!(present(quota(vec![], exhausted), 77).ok().expect("a quota").limit_reached);
}

#[test]
fn what_is_known_of_access_is_kept() {
    assert!(matches!(
        quota_state(&QuotaAccess::Unknown, 9),
        Ok(QuotaState::ObservedUnknown { observed_at_us: 9 })
    ));
    assert!(matches!(
        quota_state(&QuotaAccess::Allowed, 9),
        Ok(QuotaState::Allowed { observed_at_us: 9 })
    ));
    let exhausted = QuotaAccess::Exhausted {
        evidence: QuotaEvidence::PaymentRequired,
        reset_at_ms: Some(5),
    };
    assert!(matches!(
        quota_state(&exhausted, 9),
        Ok(QuotaState::Exhausted {
            evidence: QuotaEvidence::PaymentRequired,
            observed_at_us: 9,
            reset_at_ms: Some(5),
        })
    ));
    let never = QuotaAccess::Exhausted {
        evidence: QuotaEvidence::AccountLimitReached,
        reset_at_ms: Some(i64::MAX),
    };
    assert!(quota_state(&never, 9).is_err());
}

#[test]
fn a_quota_is_stored_for_the_account_that_was_asked() {
    assert!(allowed(true).is_ok());
    match allowed(false) {
        Err(error) => assert_eq!(error.kind, ProviderAdminErrorKind::Unsupported),
        Ok(()) => panic!("the provider reports no quotas"),
    }
    let account = account();
    let unusable = ProviderAdminError { kind: ProviderAdminErrorKind::BadGateway };
    let kept = observe(unusable, &account, quota(vec![], QuotaAccess::Allowed), 9)
        .ok()
        .expect("an observation");
    assert_eq!(kept.account_id, "acct");
    assert_eq!(kept.expected_revision, 4);
    assert!(matches!(kept.state, QuotaState::Allowed { observed_at_us: 9 }));
    assert!(observe(unusable, &account, quota(vec![window("", 1.0)], QuotaAccess::Allowed), 9).is_err());
    assert!(stored(true).is_ok());
    match stored(false) {
        Err(error) => assert_eq!(error.kind, ProviderAdminErrorKind::Conflict),
        Ok(()) => panic!("somebody else changed the account"),
    }
    let mut other = observe(unusable, &account, quota(vec![], QuotaAccess::Allowed), 9)
        .ok()
        .expect("an observation");
    other.account_id = "other".to_owned();
    let found = pick(vec![other, kept], &account).expect("an observation");
    assert_eq!(found.account_id, "acct");
    assert!(pick(vec![], &account).is_none());
    let shown = show(Some(found)).ok().expect("a quota");
    assert_eq!(shown.plan_type.as_deref(), Some("plus"));
    assert_eq!(show(None).ok().expect("no quota").observed_at_us, None);
}

fn forecast_window(key: &str) -> QuotaForecastWindow {
    QuotaForecastWindow {
        key: key.to_owned(),
        group: "group".to_owned(),
        limit_id: None,
        role: Some(QuotaWindowRole::Primary),
        account_wide: true,
        window_seconds: 3_600,
        used_percent: 12.5_f64.to_bits(),
        reset_at_ms: 1_000,
    }
}

#[test]
fn a_forecast_is_found_by_its_window() {
    let forecast = |windows| QuotaForecast { plan_type: Some("plus".to_owned()), windows };
    assert!(forecast::validate(&forecast(vec![forecast_window("a")])));
    assert!(forecast::metadata(forecast(vec![forecast_window("a")])).is_ok());
    let shown = present(quota(vec![window("a", 10.0), window("b", 1.0)], QuotaAccess::Allowed), 1)
        .ok()
        .expect("a quota");
    let found = forecast::observation(Some(forecast(vec![forecast_window("a")])), &shown.windows[0])
        .expect("a forecast");
    assert_eq!(found.used_percent, 12.5_f64.to_bits());
    assert_eq!(found.reset_at_ms, 1_000);
    assert_eq!(found.plan_type.as_deref(), Some("plus"));
    assert!(
        forecast::observation(Some(forecast(vec![forecast_window("a")])), &shown.windows[1])
            .is_none()
    );
    assert!(forecast::observation(None, &shown.windows[0]).is_none());
    let mut broken = forecast_window("a");
    broken.used_percent = f64::NAN.to_bits();
    assert!(!forecast::validate(&forecast(vec![broken])));
    let mut broken = forecast_window("a");
    broken.reset_at_ms = i64::MAX;
    match forecast::metadata(forecast(vec![broken])) {
        Err(error) => assert_eq!(error.kind, ProviderErrorKind::Protocol),
        Ok(_) => panic!("no point of the calendar"),
    }
}

fn walk(refresh: bool, events: Vec<QuotaEvent>) -> (QuotaQuery, QuotaAction) {
    let (mut machine, mut action) =
        QuotaQuery::new(true, "custom".to_owned(), refresh).ok().expect("a question");
    assert!(matches!(action, QuotaAction::ReadAccount));
    for event in events {
        (machine, action) = machine.step(event);
    }
    (machine, action)
}

fn failed(action: QuotaAction) -> Option<ProviderAdminErrorKind> {
    match action {
        QuotaAction::Fail(error) => Some(error.kind),
        _ => None,
    }
}

fn read() -> QuotaEvent {
    QuotaEvent::AccountRead(StoreReply::Done(Some(account())))
}

fn told(quota: Quota) -> QuotaEvent {
    QuotaEvent::Answered {
        answer: Ok(quota),
        unusable: ProviderAdminError { kind: ProviderAdminErrorKind::BadGateway },
    }
}

#[test]
fn what_was_kept_is_shown_without_a_call() {
    assert!(matches!(walk(false, vec![read()]).1, QuotaAction::ReadKept));
    match walk(false, vec![read(), QuotaEvent::KeptRead(Some(vec![]))]).1 {
        QuotaAction::Answer(shown) => {
            assert_eq!((shown.plan_type, shown.observed_at_us), (None, None));
            assert!(shown.windows.is_empty());
            assert!(!shown.limit_reached);
        }
        _ => panic!("nothing was kept"),
    }
    let unusable = ProviderAdminError { kind: ProviderAdminErrorKind::BadGateway };
    let kept = observe(unusable, &account(), quota(vec![], QuotaAccess::Allowed), 9)
        .ok()
        .expect("an observation");
    match walk(false, vec![read(), QuotaEvent::KeptRead(Some(vec![kept]))]).1 {
        QuotaAction::Answer(shown) => assert_eq!(shown.observed_at_us, Some(9)),
        _ => panic!("something was kept"),
    }
    assert_eq!(
        failed(walk(false, vec![read(), QuotaEvent::KeptRead(None)]).1),
        Some(ProviderAdminErrorKind::Unavailable)
    );
    assert_eq!(
        QuotaQuery::new(false, "custom".to_owned(), true).err().map(|e| e.kind),
        Some(ProviderAdminErrorKind::Unsupported)
    );
}

#[test]
fn a_new_answer_is_kept_with_the_time_before_the_call() {
    let asked = || {
        let credential = LoadedCredential { account: account(), credential: vec![] };
        vec![read(), QuotaEvent::CredentialLoaded(Ok(credential)), QuotaEvent::TimeTaken(77)]
    };
    assert!(matches!(walk(true, vec![read()]).1, QuotaAction::LoadCredential));
    assert!(matches!(walk(true, asked()).1, QuotaAction::Ask));
    let answered = || {
        let mut events = asked();
        events.push(told(quota(vec![], QuotaAccess::Allowed)));
        events
    };
    match walk(true, answered()).0.phase {
        QuotaPhase::Storing { observation } => {
            assert_eq!(observation.observed_at_us, 77);
            assert_eq!(observation.expected_revision, 4);
        }
        _ => panic!("the answer is kept"),
    }
    for (kept, expected) in [
        (Some(false), Some(ProviderAdminErrorKind::Conflict)),
        (None, Some(ProviderAdminErrorKind::Unavailable)),
        (Some(true), None),
    ] {
        let mut events = answered();
        events.push(QuotaEvent::Stored(kept));
        assert_eq!(failed(walk(true, events).1), expected);
    }
    let mut events = asked();
    events.push(told(quota(vec![window("", 1.0)], QuotaAccess::Allowed)));
    assert_eq!(failed(walk(true, events).1), Some(ProviderAdminErrorKind::BadGateway));
    for (reply, expected) in [
        (StoreReply::Done(None), ProviderAdminErrorKind::NotFound),
        (StoreReply::Failed, ProviderAdminErrorKind::Unavailable),
        (
            StoreReply::Done(Some(ProviderAccount { provider: "other".to_owned(), ..account() })),
            ProviderAdminErrorKind::Invalid,
        ),
    ] {
        let action = walk(true, vec![QuotaEvent::AccountRead(reply)]).1;
        assert_eq!(failed(action), Some(expected));
    }
}

#[test]
fn stored_documents_have_one_member() {
    let document = store_quota(Json::text("q"));
    assert_eq!(
        gateway_plugin::json::encode(&document).expect("writable"),
        br#"{"plugin_quota_v1":"q"}"#.to_vec()
    );
    assert!(kept_quota(&document).expect("a quota").is_text("q"));
    let document = forecast::store_forecast(Json::text("f"));
    assert_eq!(
        gateway_plugin::json::encode(&document).expect("writable"),
        br#"{"plugin_quota_forecast_v1":"f"}"#.to_vec()
    );
    assert!(forecast::kept_forecast(&document).expect("a forecast").is_text("f"));
    assert!(kept_quota(&document).is_none());
    assert!(forecast::kept_forecast(&Json::Null).is_none());
}
