use gateway_plugin::account::{CredentialState, ProviderAccount};
use gateway_plugin::catalog::{ModelDescriptor, ModelDiscovery, OperationKind};
use gateway_plugin::continuation::ContinuationStateDescriptor;
use gateway_plugin::credential_form::CredentialForms;
use gateway_plugin::configuration::AccountConfigurationDescriptor;
use gateway_plugin::fault::{
    AdminError, AdminErrorKind, AdminReason, ProviderAdminErrorKind, ProviderErrorKind,
};
use gateway_plugin::json::{decode, Json};
use gateway_plugin::maintenance::{
    refresh_wanted, CachedProfiles, MaintenanceKind, MaintenanceStep, PluginCapabilityBinding,
    PluginFailurePolicy, RefreshTimes,
};
use gateway_plugin::management::ProviderOperation;
use gateway_plugin::manifest::{
    AccountOperation, Capability, CapabilityDeclaration, CredentialOperation, Manifest, Stage,
};
use gateway_plugin::provider::{
    DeclaredProfiles, PluginProvider, ProbeOperation, ProviderDescriptor, ProviderHttpEndpoint,
    ProviderHttpMethod, ProviderInstanceBinding,
};
use gateway_plugin::provider_ports::ProviderRefreshPolicy;
use gateway_plugin::request_profile::{
    RequestProfileDescriptor, RequestProfileLimits, RequestProfileOption,
    RequestProfilePresentation, RequestProfileRefresh, RequestProfileTarget,
};

const LIMITS: RequestProfileLimits =
    RequestProfileLimits { maximum_sequence: 100, maximum_bytes: 1_000 };

fn declaration(capability: Capability, stages: Vec<Stage>) -> CapabilityDeclaration {
    CapabilityDeclaration {
        capability,
        stages,
        input_formats: vec!["responses".to_owned()],
        output_formats: vec!["responses".to_owned(), "canonical".to_owned()],
    }
}

fn manifest(extra: Vec<CapabilityDeclaration>) -> Manifest {
    let mut contributes = vec![declaration(Capability::Executor, vec![Stage::Execution])];
    contributes.extend(extra);
    Manifest { contributes }
}

fn descriptor() -> ProviderDescriptor {
    ProviderDescriptor {
        kind: Some("custom".to_owned()),
        models: vec![ModelDescriptor {
            id: "m".to_owned(),
            is_model: true,
            operations: vec![OperationKind::Generate],
            features: vec![],
            maximum_output_tokens: None,
        }],
        exhaustive: true,
        model_discovery: None,
        credential_operations: vec![],
        credential_forms: CredentialForms {
            import: None,
            rotate: None,
            login: None,
            refresh: None,
            export: None,
        },
        account_operations: vec![],
        account_configuration: None,
        request_profiles: None,
        http_endpoints: vec![],
        continuation_state: None,
        billing: None,
    }
}

fn binding() -> ProviderInstanceBinding {
    ProviderInstanceBinding::new(
        "instance".to_owned(),
        "grant".to_owned(),
        "conversations".to_owned(),
    )
}

fn grants() -> Vec<String> {
    vec!["network".to_owned(), "accounts".to_owned()]
}

fn prepare(descriptor: ProviderDescriptor, manifest: &Manifest) -> Result<
    PluginProvider,
    AdminError,
> {
    PluginProvider::prepare(descriptor, binding(), manifest, &grants())
}

fn reason(descriptor: ProviderDescriptor, manifest: &Manifest) -> Option<AdminReason> {
    prepare(descriptor, manifest).err().map(|error| {
        assert_eq!(error.kind, AdminErrorKind::Invalid);
        error.reason
    })
}

fn choice(name: &str) -> Vec<(String, Json)> {
    vec![("client".to_owned(), Json::text(name))]
}

fn profiles(version: &str) -> RequestProfileDescriptor {
    RequestProfileDescriptor {
        default_configuration: choice("a"),
        options: vec![RequestProfileOption {
            id: "a".to_owned(),
            label: "Client".to_owned(),
            description: None,
            configuration: choice("a"),
            resolved: vec![("version".to_owned(), Json::text(version))],
            presentation: RequestProfilePresentation {
                product: "client".to_owned(),
                version: version.to_owned(),
                build: None,
                target: RequestProfileTarget {
                    os_type: "linux".to_owned(),
                    os_version: "1".to_owned(),
                    arch: "x86_64".to_owned(),
                    terminal: "xterm".to_owned(),
                },
                user_agent: "client/1".to_owned(),
                attributes: vec![],
                verified_at_ms: None,
                release: None,
            },
        }],
    }
}

fn with_profiles() -> ProviderDescriptor {
    ProviderDescriptor {
        request_profiles: Some(DeclaredProfiles {
            descriptor: profiles("1"),
            encoded: b"first".to_vec(),
        }),
        ..descriptor()
    }
}

fn renewing() -> Manifest {
    manifest(vec![declaration(Capability::RequestProfile, vec![Stage::Maintenance])])
}

fn endpoint(id: &str, methods: Vec<ProviderHttpMethod>) -> ProviderHttpEndpoint {
    ProviderHttpEndpoint { id: id.to_owned(), methods }
}

#[test]
fn a_provider_is_what_was_declared() {
    let provider = prepare(
        ProviderDescriptor {
            http_endpoints: vec![
                endpoint("b", vec![ProviderHttpMethod::Get, ProviderHttpMethod::Post]),
                endpoint("a", vec![ProviderHttpMethod::Post]),
            ],
            ..descriptor()
        },
        &manifest(vec![declaration(Capability::Quota, vec![Stage::Management])]),
    )
    .ok()
    .expect("a provider");
    assert_eq!(provider.name(), "custom");
    assert_eq!(provider.instance_id, "instance");
    assert_eq!(provider.input_formats, vec!["responses"]);
    assert_eq!(provider.output_formats, vec!["canonical", "responses"]);
    assert!(provider.quota_enabled);
    assert!(provider.model_catalog_is_exhaustive());
    assert_eq!(provider.http_endpoints.len(), 2);
    assert_eq!(provider.http_endpoints.get("a"), Some(&vec![ProviderHttpMethod::Post]));
    assert_eq!(provider.continuation.owner.len(), 36);
    assert_ne!(binding().continuation_owner, binding().continuation_owner);
    assert!(uuid::Uuid::parse_str(&provider.continuation.owner).is_ok());
}

#[test]
fn declarations_of_a_provider_are_checked() {
    let plain = manifest(vec![]);
    assert_eq!(reason(descriptor(), &plain), None);
    assert_eq!(
        reason(ProviderDescriptor { kind: None, ..descriptor() }, &plain),
        Some(AdminReason::ProviderId)
    );
    let state = ContinuationStateDescriptor {
        format: "f".to_owned(),
        write_version: 1,
        readable_versions: vec![],
    };
    assert_eq!(
        reason(ProviderDescriptor { continuation_state: Some(state), ..descriptor() }, &plain),
        Some(AdminReason::ContinuationState)
    );
    let mut broken = with_profiles();
    broken.request_profiles.as_mut().expect("profiles").descriptor.options.clear();
    assert_eq!(reason(broken, &plain), Some(AdminReason::RequestProfiles));
    assert_eq!(
        reason(descriptor(), &renewing()),
        Some(AdminReason::ProfileMaintenanceWithoutProfiles)
    );
    assert_eq!(reason(with_profiles(), &renewing()), None);
    assert_eq!(
        reason(descriptor(), &Manifest { contributes: vec![] }),
        Some(AdminReason::ExecutorMissing)
    );
    let no_grant =
        PluginProvider::prepare(descriptor(), binding(), &plain, &vec!["network".to_owned()]);
    assert_eq!(
        no_grant.err().map(|error| error.reason),
        Some(AdminReason::AccountsPermissionMissing)
    );
    let many = (0..4097)
        .map(|i| ModelDescriptor {
            id: format!("m{i}"),
            is_model: true,
            operations: vec![OperationKind::Generate],
            features: vec![],
            maximum_output_tokens: None,
        })
        .collect();
    assert_eq!(
        reason(ProviderDescriptor { models: many, ..descriptor() }, &plain),
        Some(AdminReason::ModelsOrFormats)
    );
    let mut twice = manifest(vec![]);
    twice.contributes[0].input_formats.push("responses".to_owned());
    assert_eq!(reason(descriptor(), &twice), Some(AdminReason::ModelsOrFormats));
}

#[test]
fn operations_go_with_capabilities() {
    let plain = manifest(vec![]);
    let authentication =
        manifest(vec![declaration(Capability::Authentication, vec![Stage::Management])]);
    let with = |operations: Vec<CredentialOperation>| ProviderDescriptor {
        credential_operations: operations,
        ..descriptor()
    };
    assert_eq!(reason(with(vec![CredentialOperation::Refresh]), &authentication), None);
    for (operations, manifest) in [
        (vec![], &authentication),
        (vec![CredentialOperation::Refresh], &plain),
        (vec![CredentialOperation::Refresh, CredentialOperation::Refresh], &authentication),
    ] {
        assert_eq!(reason(with(operations), manifest), Some(AdminReason::CredentialOperations));
    }
    let managing = |stages| manifest(vec![declaration(Capability::AccountManagement, stages)]);
    let with = |operations: Vec<AccountOperation>| ProviderDescriptor {
        account_operations: operations,
        ..descriptor()
    };
    assert_eq!(
        reason(with(vec![AccountOperation::Profile]), &managing(vec![Stage::Management])),
        None
    );
    assert_eq!(
        reason(with(vec![AccountOperation::FactsChanged]), &managing(vec![Stage::Observation])),
        None
    );
    for (operations, manifest) in [
        (vec![AccountOperation::FactsChanged], managing(vec![Stage::Management])),
        (vec![AccountOperation::Profile], managing(vec![Stage::Observation])),
        (vec![], managing(vec![Stage::Management])),
        (vec![AccountOperation::Profile], self::manifest(vec![])),
    ] {
        assert_eq!(reason(with(operations), &manifest), Some(AdminReason::AccountOperations));
    }
    let settings = ProviderDescriptor {
        account_configuration: Some(AccountConfigurationDescriptor {
            public_fields: vec!["region".to_owned()],
        }),
        ..descriptor()
    };
    assert_eq!(reason(settings, &plain), Some(AdminReason::ConfigurationOperation));
    let form = ProviderDescriptor {
        credential_forms: CredentialForms {
            import: Some(decode(b"{}").expect("a document")),
            ..descriptor().credential_forms
        },
        ..descriptor()
    };
    assert_eq!(reason(form, &plain), Some(AdminReason::CredentialFormOperation));
    let discovery = ProviderDescriptor {
        model_discovery: Some(ModelDiscovery { cache_ttl_seconds: 0, include_static: true }),
        ..descriptor()
    };
    assert_eq!(reason(discovery, &plain), Some(AdminReason::ModelDiscovery));
    let billing = manifest(vec![declaration(Capability::Billing, vec![Stage::Execution])]);
    assert_eq!(reason(descriptor(), &billing), Some(AdminReason::BillingCapability));
}

#[test]
fn endpoints_are_named_once() {
    let with = |http_endpoints| ProviderDescriptor { http_endpoints, ..descriptor() };
    let get = || vec![ProviderHttpMethod::Get];
    let plain = manifest(vec![]);
    assert_eq!(reason(with(vec![endpoint("a.b-c_1", get())]), &plain), None);
    for broken in [
        vec![endpoint("", get())],
        vec![endpoint("..", get())],
        vec![endpoint("a/b", get())],
        vec![endpoint(&"x".repeat(65), get())],
        vec![endpoint("a", vec![])],
        vec![endpoint("a", vec![ProviderHttpMethod::Get, ProviderHttpMethod::Get])],
        vec![endpoint("a", get()), endpoint("a", vec![ProviderHttpMethod::Post])],
    ] {
        assert_eq!(reason(with(broken), &plain), Some(AdminReason::HttpEndpoint));
    }
    let many = (0..65).map(|i| endpoint(&format!("e{i}"), get())).collect();
    assert_eq!(reason(with(many), &plain), Some(AdminReason::TooManyHttpEndpoints));
}

#[test]
fn clients_are_chosen_where_there_are_any() {
    let without = prepare(descriptor(), &manifest(vec![])).ok().expect("a provider");
    assert_eq!(
        without.resolve_request_profile(&choice("a")).err().map(|e| e.kind),
        Some(ProviderErrorKind::InvalidRequest)
    );
    assert!(without.default_request_profile().is_none());
    assert!(without.default_client_profile().is_none());
    assert!(without.wire_profile(None).is_none());
    assert_eq!(
        without.client_profile_options().err().map(|e| e.kind),
        Some(ProviderAdminErrorKind::Unsupported)
    );
    assert_eq!(
        without.preview_client_profile(&choice("a")).err().map(|e| e.kind),
        Some(ProviderAdminErrorKind::Unsupported)
    );
    let with = prepare(with_profiles(), &renewing()).ok().expect("a provider");
    assert!(with.resolve_request_profile(&choice("a")).is_ok());
    assert!(with.resolve_request_profile(&choice("b")).is_err());
    assert!(with.default_request_profile().is_some());
    assert!(with.default_client_profile().is_some());
    assert_eq!(with.wire_profile(None).expect("the default").version, "1");
    assert!(with.client_profile_options().is_ok());
    assert!(with.preview_client_profile(&choice("a")).is_ok());
    assert_eq!(
        with.preview_client_profile(&choice("b")).err().map(|e| e.kind),
        Some(ProviderAdminErrorKind::Invalid)
    );
}

#[test]
fn an_account_is_tried_out_in_a_declared_format() {
    let provider = prepare(descriptor(), &manifest(vec![])).ok().expect("a provider");
    let probe = |protocol: &str| {
        Some(ProbeOperation { protocol: protocol.to_owned(), body: choice("a") })
    };
    assert!(provider.connection_test_operation(probe("responses"), &vec![]).is_ok());
    for refused in [
        provider.connection_test_operation(probe("messages"), &vec![]),
        provider.connection_test_operation(probe("responses"), &vec![1]),
        provider.connection_test_operation(None, &vec![]),
    ] {
        assert_eq!(refused.err().map(|e| e.kind), Some(ProviderAdminErrorKind::Invalid));
    }
}

fn maintained(stage: &str, providers: &[&str]) -> PluginCapabilityBinding {
    PluginCapabilityBinding {
        capability: Ok(Capability::Maintenance),
        stage: stage.to_owned(),
        failure_policy: PluginFailurePolicy::Reject,
        order: 0,
        client_key_ids: vec![],
        account_group_ids: vec![],
        models: vec![],
        provider_ids: providers.iter().map(|one| (*one).to_owned()).collect(),
    }
}

fn tasks() -> Manifest {
    manifest(vec![
        declaration(Capability::Maintenance, vec![Stage::Maintenance]),
        declaration(Capability::Quota, vec![Stage::Management]),
    ])
}

#[test]
fn tasks_are_bound_once_and_widely() {
    let manifest = tasks();
    let provider = prepare(descriptor(), &manifest).ok().expect("a provider");
    let enabled = |bindings: Vec<PluginCapabilityBinding>| {
        provider.maintenance_enabled(&manifest, &bindings).map_err(|error| error.reason)
    };
    assert_eq!(enabled(vec![]), Ok(false));
    assert_eq!(enabled(vec![maintained("maintenance", &[])]), Ok(true));
    assert_eq!(enabled(vec![maintained("maintenance", &["custom"])]), Ok(true));
    let elsewhere = PluginCapabilityBinding {
        capability: Ok(Capability::Quota),
        ..maintained("management", &[])
    };
    assert_eq!(enabled(vec![elsewhere, maintained("maintenance", &[])]), Ok(true));
    assert_eq!(
        enabled(vec![maintained("maintenance", &[]), maintained("maintenance", &[])]),
        Err(AdminReason::MaintenanceBindingRepeated)
    );
    for broken in [
        maintained("management", &[]),
        maintained("maintenance", &["other"]),
        maintained("maintenance", &["custom", "custom"]),
        PluginCapabilityBinding { order: 1, ..maintained("maintenance", &[]) },
        PluginCapabilityBinding {
            failure_policy: PluginFailurePolicy::Other,
            ..maintained("maintenance", &[])
        },
        PluginCapabilityBinding {
            models: vec!["m".to_owned()],
            ..maintained("maintenance", &[])
        },
    ] {
        assert_eq!(enabled(vec![broken]), Err(AdminReason::MaintenanceBinding));
    }
    let unknown = PluginCapabilityBinding {
        capability: Err(AdminError { kind: AdminErrorKind::Invalid, reason: AdminReason::ModelId }),
        ..maintained("maintenance", &[])
    };
    assert_eq!(enabled(vec![unknown]), Err(AdminReason::ModelId));
    let idle = self::manifest(vec![declaration(
        Capability::Maintenance,
        vec![Stage::Maintenance],
    )]);
    let nothing = prepare(descriptor(), &idle).ok().expect("a provider");
    assert_eq!(
        nothing
            .maintenance_enabled(&idle, &vec![maintained("maintenance", &[])])
            .map_err(|error| error.reason),
        Err(AdminReason::MaintenanceBinding)
    );
}

fn account() -> ProviderAccount {
    ProviderAccount {
        id: "acct".to_owned(),
        provider: "custom".to_owned(),
        revision: 4,
        name: "name".to_owned(),
        email: None,
        authentication_kind: "oauth".to_owned(),
        upstream_user_id: None,
        upstream_account_id: None,
        plan_type: None,
        has_refresh_token: true,
        access_token_expires_at_ms: Some(10_000),
        next_refresh_at_ms: None,
        enabled: true,
        credential_state: CredentialState::Ready,
        has_error: false,
        outbound_proxy: None,
    }
}

#[test]
fn tasks_leave_accounts_alone_that_are_switched_off() {
    let provider = prepare(descriptor(), &tasks()).ok().expect("a provider");
    assert!(provider.supports_maintenance(MaintenanceKind::Quota));
    assert!(!provider.supports_maintenance(MaintenanceKind::Models));
    assert!(!provider.supports_maintenance(MaintenanceKind::Credentials));
    assert!(!provider.keeps_request_profiles());
    let step = |kind, account: ProviderAccount| provider.maintenance_step(kind, &account, true).ok();
    let expired = || ProviderAccount {
        credential_state: CredentialState::Expired,
        ..account()
    };
    assert_eq!(step(MaintenanceKind::Quota, account()), Some(MaintenanceStep::Quota));
    assert_eq!(step(MaintenanceKind::Models, account()), Some(MaintenanceStep::Models));
    assert_eq!(
        step(MaintenanceKind::Credentials, account()),
        Some(MaintenanceStep::RefreshIfDue)
    );
    assert_eq!(step(MaintenanceKind::Credentials, expired()), Some(MaintenanceStep::RefreshIfDue));
    assert_eq!(step(MaintenanceKind::Quota, expired()), Some(MaintenanceStep::Skip));
    for skipped in [
        ProviderAccount { enabled: false, ..account() },
        ProviderAccount { provider: "other".to_owned(), ..account() },
        ProviderAccount { has_refresh_token: false, ..account() },
    ] {
        assert_eq!(step(MaintenanceKind::Credentials, skipped), Some(MaintenanceStep::Skip));
    }
    assert_eq!(step(MaintenanceKind::RequestProfiles, account()), None);
    assert_eq!(
        provider
            .maintenance_step(MaintenanceKind::Quota, &account(), false)
            .err()
            .map(|e| e.kind),
        Some(ProviderAdminErrorKind::Invalid)
    );
}

#[test]
fn a_credential_is_refreshed_when_it_is_due() {
    let policy = ProviderRefreshPolicy::try_new(1_000, 1).ok();
    let expires = |at| RefreshTimes { next_refresh_at: None, access_token_expires_at: Some(at) };
    assert_eq!(refresh_wanted(expires(10_000), policy, 8_999).ok(), Some(false));
    assert_eq!(refresh_wanted(expires(10_000), policy, 9_000).ok(), Some(true));
    let set = |at| RefreshTimes { next_refresh_at: Some(at), ..expires(10_000) };
    assert_eq!(refresh_wanted(set(15_001), policy, 15_000).ok(), Some(false));
    assert_eq!(refresh_wanted(set(15_000), policy, 15_000).ok(), Some(true));
    let open = RefreshTimes { next_refresh_at: None, access_token_expires_at: None };
    assert_eq!(refresh_wanted(open, policy, 15_000).ok(), Some(false));
    assert_eq!(
        refresh_wanted(expires(0), None, 0).err().map(|e| e.kind),
        Some(ProviderAdminErrorKind::Unavailable)
    );
}

fn refresh(sequence: u64, version: &str) -> RequestProfileRefresh {
    RequestProfileRefresh { sequence, profiles: profiles(version) }
}

fn found(sequence: u64, version: &str) -> CachedProfiles {
    CachedProfiles::Found {
        refresh: refresh(sequence, version),
        encoded_bytes: 10,
        encoded: version.as_bytes().to_vec(),
    }
}

#[test]
fn a_kept_list_of_clients_is_taken_up() {
    let mut provider = prepare(with_profiles(), &renewing()).ok().expect("a provider");
    assert!(provider.keeps_request_profiles());
    assert_eq!(provider.profile_cache_key(), "plugin-grant");
    assert!(provider.restore_request_profiles(CachedProfiles::Nothing, LIMITS).is_ok());
    let error = provider
        .restore_request_profiles(CachedProfiles::Failed, LIMITS)
        .expect_err("the store failed");
    assert_eq!(
        (error.kind, error.reason),
        (AdminErrorKind::Unavailable, AdminReason::ProfileCacheRead)
    );
    let error = provider
        .restore_request_profiles(CachedProfiles::Unreadable, LIMITS)
        .expect_err("no list");
    assert_eq!(error.reason, AdminReason::ProfileCache);
    assert!(provider.restore_request_profiles(found(3, "3"), LIMITS).is_ok());
    assert_eq!(provider.wire_profile(None).expect("the default").version, "3");
    assert!(provider.restore_request_profiles(found(2, "2"), LIMITS).is_ok());
    assert_eq!(provider.wire_profile(None).expect("the default").version, "3");
    assert!(provider.restore_request_profiles(found(0, "4"), LIMITS).is_err());
    let mut other = prepare(descriptor(), &manifest(vec![])).ok().expect("a provider");
    assert!(other.restore_request_profiles(CachedProfiles::Failed, LIMITS).is_ok());
}

#[test]
fn a_list_of_clients_is_renewed() {
    let provider = prepare(with_profiles(), &renewing()).ok().expect("a provider");
    let call = provider.begin_profile_refresh("task".to_owned()).ok().expect("a call");
    assert_eq!(call.operation, ProviderOperation::Profile);
    assert_eq!(call.context.stage, Stage::Maintenance);
    assert_eq!(call.context.request_id.as_deref(), Some("task"));
    assert!(provider.check_profile_refresh(&call, refresh(1, "1"), 10, b"x", LIMITS).is_ok());
    assert_eq!(
        provider
            .check_profile_refresh(&call, refresh(0, "1"), 10, b"x", LIMITS)
            .err()
            .map(|e| e.kind),
        Some(ProviderAdminErrorKind::BadGateway)
    );
    assert!(PluginProvider::finish_profile_refresh(&call, true, Ok(())).is_ok());
    assert_eq!(
        PluginProvider::finish_profile_refresh(&call, false, Ok(())).err().map(|e| e.kind),
        Some(ProviderAdminErrorKind::Unavailable)
    );
    let failed = AdminError { kind: AdminErrorKind::Invalid, reason: AdminReason::ProfileCache };
    assert_eq!(
        PluginProvider::finish_profile_refresh(&call, true, Err(failed)).err().map(|e| e.kind),
        Some(ProviderAdminErrorKind::BadGateway)
    );
    let without = prepare(descriptor(), &manifest(vec![])).ok().expect("a provider");
    assert_eq!(
        without.begin_profile_refresh("task".to_owned()).err().map(|e| e.kind),
        Some(ProviderAdminErrorKind::Invalid)
    );
}
