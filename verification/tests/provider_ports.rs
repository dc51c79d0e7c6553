use gateway_plugin::provider_ports::{
    AccountRuntimeSignals, CredentialRevision, ModelDowngradePolicy, ModelDowngradeVerdict,
    NewOAuthPendingFlow, OAuthPendingBinding, ProviderRefreshPolicy, ProviderSchedulingState,
    ProviderSessionAffinityKey, ProviderStoreErrorKind,
};

const SECOND_NANOS: u128 = 1_000_000_000;
const SECOND: i128 = 1_000_000_000;

#[test]
fn oauth_pending_binding_debug_redacts_raw_value() {
    let binding = OAuthPendingBinding::try_new("must-not-appear").ok().expect("valid binding");

    assert_eq!(binding.debug_text(), "OAuthPendingBinding([REDACTED])");
}

#[test]
fn provider_session_affinity_key_debug_is_opaque() {
    let key = ProviderSessionAffinityKey::try_new("opaque-session-key").ok().expect("valid key");

    assert_eq!(key.debug_text(), "ProviderSessionAffinityKey([OPAQUE])");
}

#[test]
fn empty_bindings_and_keys_are_refused() {
    assert!(matches!(
        OAuthPendingBinding::try_new("").err().map(|error| error.kind()),
        Some(ProviderStoreErrorKind::InvalidData)
    ));
    assert!(matches!(
        ProviderSessionAffinityKey::try_new("").err().map(|error| error.kind()),
        Some(ProviderStoreErrorKind::InvalidData)
    ));
}

fn pending_flow(ttl_nanos: u128) -> Option<ProviderStoreErrorKind> {
    let flow = OAuthPendingBinding::try_new("flow").ok().expect("valid flow");
    let owner = OAuthPendingBinding::try_new("owner").ok().expect("valid owner");
    NewOAuthPendingFlow::try_new("fixture".to_owned(), flow, owner, ttl_nanos, Vec::new())
        .err()
        .map(|error| error.kind())
}

#[test]
fn oauth_pending_ttl_rejects_zero_and_more_than_thirty_minutes() {
    for ttl in [0, (30 * 60 + 1) * SECOND_NANOS] {
        assert_eq!(pending_flow(ttl), Some(ProviderStoreErrorKind::InvalidData));
    }
}

#[test]
fn oauth_pending_ttl_accepts_up_to_thirty_minutes() {
    assert_eq!(pending_flow(1), None);
    assert_eq!(pending_flow(30 * 60 * SECOND_NANOS), None);
    assert_eq!(
        pending_flow(30 * 60 * SECOND_NANOS + 1),
        Some(ProviderStoreErrorKind::InvalidData)
    );
}

#[test]
fn refresh_policy_requires_a_positive_margin() {
    let error = ProviderRefreshPolicy::try_new(0, 1).expect_err("zero margin must fail");

    assert_eq!(error.kind(), ProviderStoreErrorKind::InvalidData);
}

#[test]
fn refresh_policy_should_mark_tokens_due_at_the_exact_configured_margin() {
    let policy = ProviderRefreshPolicy::try_new(3_600 * SECOND_NANOS, 2).expect("valid policy");
    let observed_at: i128 = 10_000 * SECOND;
    let expires_at = observed_at + 7_200 * SECOND;

    assert!(!policy.is_refresh_due(expires_at, observed_at));
    assert!(policy.is_refresh_due(observed_at + 3_600 * SECOND, observed_at));
}

#[test]
fn refresh_policy_should_mark_expired_tokens_due() {
    let policy = ProviderRefreshPolicy::try_new(3_600 * SECOND_NANOS, 1).expect("valid policy");
    let observed_at: i128 = 10_000 * SECOND;

    assert!(policy.is_refresh_due(observed_at - SECOND, observed_at));
}

#[test]
fn refresh_is_not_due_one_nanosecond_before_the_margin() {
    let policy = ProviderRefreshPolicy::try_new(3_600 * SECOND_NANOS, 7).expect("valid policy");

    assert!(!policy.is_refresh_due(3_600 * SECOND + 1, 0));
    assert!(policy.is_refresh_due(3_600 * SECOND, 0));
    assert!(policy.is_refresh_due(i128::MIN, i128::MAX));
    assert!(!policy.is_refresh_due(i128::MAX, i128::MIN));
    let endless = ProviderRefreshPolicy::try_new(u128::MAX, 1).expect("valid policy");
    assert!(endless.is_refresh_due(i128::MAX, i128::MIN));
    assert_eq!(policy.concurrency(), 7);
}

#[test]
fn scheduling_state_preserves_provider_neutral_signals() {
    let signals = vec![(
        "acct_fixture".to_owned(),
        AccountRuntimeSignals {
            in_flight: 2,
            last_started_at_ms: None,
            quota_reset_at_ms: None,
            quota_remaining_rank: Some(7),
            cooldown_until_ms: None,
            failure_rate_basis_points: Some(125),
            first_output_latency_ms: Some(250),
        },
    )];
    let state = ProviderSchedulingState::new(signals, 9);

    let known = state.signals("acct_fixture").expect("known account");
    assert_eq!(known.in_flight, 2);
    assert_eq!(known.failure_rate_basis_points, Some(125));
    assert_eq!(state.round_robin_cursor(), 9);
    assert_eq!(CredentialRevision::new(1).expect("positive revision").get(), 1);
    assert!(state.signals("acct_other").is_none());
    assert!(CredentialRevision::new(0).is_err());
}

fn downgrade_ladder() -> Vec<String> {
    ["gpt-6-astra", "gpt-5.6-sol", "gpt-5.6-terra", "gpt-5.6-luna"]
        .into_iter()
        .map(str::to_owned)
        .collect()
}

fn downgrade_policy() -> ModelDowngradePolicy {
    ModelDowngradePolicy::try_new(true, 3, 600, 3_600, downgrade_ladder(), None)
        .ok()
        .expect("valid downgrade policy")
}

#[test]
fn model_downgrade_flags_lower_tier_return() {
    let policy = downgrade_policy();

    assert_eq!(
        policy.classify("gpt-6-astra", "gpt-5.6-luna"),
        ModelDowngradeVerdict::Downgraded,
    );
    assert_eq!(
        policy.classify("gpt-5.6-sol", "gpt-5.6-terra"),
        ModelDowngradeVerdict::Downgraded,
    );
}

#[test]
fn model_downgrade_accepts_same_or_higher_tier() {
    let policy = downgrade_policy();

    assert_eq!(
        policy.classify("gpt-6-astra", "gpt-6-astra"),
        ModelDowngradeVerdict::Healthy,
    );
    assert_eq!(
        policy.classify("gpt-5.6-luna", "gpt-6-astra"),
        ModelDowngradeVerdict::Healthy,
    );
}

#[test]
fn model_downgrade_unknown_models_are_not_flagged() {
    let policy = downgrade_policy();

    assert_eq!(
        policy.classify("gpt-image-2", "gpt-5.6-luna"),
        ModelDowngradeVerdict::Unknown,
    );
    assert_eq!(
        policy.classify("gpt-6-astra", "gpt-reserve"),
        ModelDowngradeVerdict::Unknown,
    );
}

#[test]
fn model_downgrade_normalizes_responses_prefix() {
    let policy = downgrade_policy();

    assert_eq!(
        policy.classify("responses/gpt-6-astra", "gpt-5.6-luna"),
        ModelDowngradeVerdict::Downgraded,
    );
    assert_eq!(
        policy.classify("gpt-6-astra", "responses/gpt-6-astra"),
        ModelDowngradeVerdict::Healthy,
    );
}

#[test]
fn model_downgrade_probe_model_defaults_to_top_tier() {
    let policy = downgrade_policy();
    assert_eq!(policy.probe_model(), Some("gpt-6-astra"));

    let explicit = ModelDowngradePolicy::try_new(
        true,
        1,
        60,
        300,
        downgrade_ladder(),
        Some("gpt-5.6-sol".to_owned()),
    )
    .ok()
    .expect("valid explicit probe model");
    assert_eq!(explicit.probe_model(), Some("gpt-5.6-sol"));
}

#[test]
fn model_downgrade_rejects_invalid_configuration() {
    assert!(ModelDowngradePolicy::try_new(true, 3, 600, 3_600, Vec::new(), None).is_err());
    let dup = vec!["gpt-6-astra".to_owned(), "gpt-6-astra".to_owned()];
    assert!(ModelDowngradePolicy::try_new(true, 3, 600, 3_600, dup, None).is_err());
    assert!(ModelDowngradePolicy::try_new(true, 0, 600, 3_600, downgrade_ladder(), None).is_err());
    assert!(ModelDowngradePolicy::try_new(true, 3, 30, 3_600, downgrade_ladder(), None).is_err());
    assert!(ModelDowngradePolicy::try_new(true, 3, 600, 100, downgrade_ladder(), None).is_err());
}

#[test]
fn model_downgrade_disabled_policy_is_inert() {
    let policy = ModelDowngradePolicy::disabled();
    assert!(!policy.enabled());
    assert_eq!(policy.probe_model(), None);
    assert_eq!(
        policy.classify("gpt-6-astra", "gpt-5.6-luna"),
        ModelDowngradeVerdict::Unknown,
    );
}
