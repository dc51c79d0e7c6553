use gateway_plugin::account::{
    CredentialFacts, CredentialState, LoadedCredential, ProviderAccount,
};
use gateway_plugin::catalog::account::{
    account_models, answered, begin, choose_account, credential_loaded, filter_model_accounts,
    rechecked, AccountAnswer, AccountChoice, DiscoveredModels, DiscoveryStep,
};
use gateway_plugin::catalog::cache::{CatalogCache, Publication, MAX_BYTES, MAX_ENTRIES};
use gateway_plugin::catalog::directory::{
    catalog_accounts, client_catalog, compile_all, AccountStatus, CatalogAccount, DirectoryMerge,
};
use gateway_plugin::catalog::discovery::{Discovery, DiscoveryAction, DiscoveryEvent};
use gateway_plugin::catalog::{
    compile, union, validate, AccountModels, ModelCatalog, ModelDescriptor, ModelDiscovery,
    ModelFeature, OperationKind,
};
use gateway_plugin::fault::{
    AdminErrorKind, AdminReason, ProviderAdminError, ProviderAdminErrorKind, ProviderErrorKind,
};
use gateway_plugin::json::Json;
use gateway_plugin::management::StoreReply;
use gateway_plugin::manifest::{Capability, CapabilityDeclaration, Manifest, Stage};
use gateway_plugin::sorted::SortedTable;

fn model(id: &str) -> ModelDescriptor {
    ModelDescriptor {
        id: id.to_owned(),
        is_model: true,
        operations: vec![OperationKind::Generate],
        features: vec![],
        maximum_output_tokens: Some(100),
    }
}

fn account(id: &str) -> ProviderAccount {
    ProviderAccount {
        id: id.to_owned(),
        provider: "custom".to_owned(),
        revision: 4,
        name: "name".to_owned(),
        email: None,
        authentication_kind: "oauth".to_owned(),
        upstream_user_id: None,
        upstream_account_id: None,
        plan_type: None,
        has_refresh_token: false,
        access_token_expires_at_ms: None,
        next_refresh_at_ms: None,
        enabled: true,
        credential_state: CredentialState::Ready,
        has_error: false,
        outbound_proxy: None,
    }
}

fn manifest() -> Manifest {
    Manifest {
        contributes: vec![CapabilityDeclaration {
            capability: Capability::Models,
            stages: vec![Stage::Management],
            input_formats: vec![],
            output_formats: vec![],
        }],
    }
}

fn discovering(include_static: bool, models: Vec<ModelDescriptor>) -> ModelCatalog {
    ModelCatalog::prepare(
        models,
        Some(ModelDiscovery { cache_ttl_seconds: 60, include_static }),
        &manifest(),
    )
    .ok()
    .expect("a catalog")
}

fn found(models: Vec<ModelDescriptor>) -> AccountModels {
    AccountModels { models, exhaustive: true }
}

#[test]
fn models_are_checked() {
    let reason = |models: Vec<ModelDescriptor>| validate(&models).err().map(|error| error.reason);
    assert_eq!(reason(vec![model("a"), model("b")]), None);
    assert_eq!(
        reason(vec![ModelDescriptor { is_model: false, ..model("a") }]),
        Some(AdminReason::ModelId)
    );
    for broken in [
        vec![model("a"), model("a")],
        vec![ModelDescriptor { operations: vec![], ..model("a") }],
        vec![ModelDescriptor {
            operations: vec![OperationKind::Search, OperationKind::Search],
            ..model("a")
        }],
        vec![ModelDescriptor { operations: vec![OperationKind::ProviderHttp], ..model("a") }],
        vec![ModelDescriptor {
            features: vec![ModelFeature::Tools, ModelFeature::Tools],
            ..model("a")
        }],
        vec![ModelDescriptor { maximum_output_tokens: Some(0), ..model("a") }],
    ] {
        assert_eq!(reason(broken), Some(AdminReason::ModelCapabilities));
    }
    let many: Vec<ModelDescriptor> = (0..4097).map(|i| model(&format!("m{i}"))).collect();
    assert_eq!(reason(many), Some(AdminReason::TooManyModels));
}

#[test]
fn models_are_compiled() {
    let compiled = compile(&ModelDescriptor {
        features: vec![ModelFeature::Vision],
        ..model("a")
    })
    .ok()
    .expect("a model");
    assert_eq!(compiled.model, "a");
    assert_eq!(compiled.operations, vec![OperationKind::Generate]);
    assert_eq!(compiled.features, vec![ModelFeature::Vision]);
    assert_eq!(compiled.maximum_output_tokens, Some(100));
    let http = ModelDescriptor { operations: vec![OperationKind::ProviderHttp], ..model("a") };
    assert_eq!(
        compile(&http).err().map(|error| error.reason),
        Some(AdminReason::ProviderHttpAsModelOperation)
    );
    let nameless = ModelDescriptor { is_model: false, ..model("a") };
    assert_eq!(compile(&nameless).err().map(|error| error.reason), Some(AdminReason::ModelId));
}

#[test]
fn a_directory_says_what_either_account_says() {
    let mut directory: SortedTable<ModelDescriptor> = SortedTable::new();
    let first = ModelDescriptor {
        operations: vec![OperationKind::Search],
        features: vec![ModelFeature::Vision],
        maximum_output_tokens: Some(50),
        ..model("a")
    };
    assert!(union(&mut directory, vec![first]).is_ok());
    let second = ModelDescriptor { features: vec![ModelFeature::Tools], ..model("a") };
    assert!(union(&mut directory, vec![second]).is_ok());
    let both = directory.get("a").expect("the model");
    assert_eq!(both.operations, vec![OperationKind::Generate, OperationKind::Search]);
    assert_eq!(both.features, vec![ModelFeature::Tools, ModelFeature::Vision]);
    assert_eq!(both.maximum_output_tokens, Some(100));
    let unlimited = ModelDescriptor { maximum_output_tokens: None, ..model("a") };
    assert!(union(&mut directory, vec![unlimited]).is_ok());
    assert_eq!(directory.get("a").expect("the model").maximum_output_tokens, None);
    let many: Vec<ModelDescriptor> = (0..4096).map(|i| model(&format!("m{i}"))).collect();
    assert_eq!(
        union(&mut directory, many).err().map(|error| error.reason),
        Some(AdminReason::TooManyMergedModels)
    );
}

#[test]
fn discovery_is_declared() {
    let prepare = |models, ttl, include_static, manifest: &Manifest| {
        ModelCatalog::prepare(
            models,
            Some(ModelDiscovery { cache_ttl_seconds: ttl, include_static }),
            manifest,
        )
        .err()
        .map(|error| error.reason)
    };
    assert_eq!(prepare(vec![model("a")], 3600, true, &manifest()), None);
    assert_eq!(prepare(vec![], 1, false, &manifest()), None);
    for refused in [
        prepare(vec![], 0, true, &manifest()),
        prepare(vec![], 3601, true, &manifest()),
        prepare(vec![model("a")], 60, false, &manifest()),
        prepare(vec![], 60, true, &Manifest { contributes: vec![] }),
    ] {
        assert_eq!(refused, Some(AdminReason::ModelDiscovery));
    }
    let listed = ModelCatalog::prepare(vec![model("a")], None, &Manifest { contributes: vec![] });
    assert!(!listed.ok().expect("a catalog").discovers_accounts());
}

#[test]
fn an_account_has_its_own_models_and_the_shared_ones() {
    let own = ModelDescriptor { maximum_output_tokens: Some(7), ..model("shared") };
    let discovered = found(vec![own, model("own")]);
    let sharing = discovering(true, vec![model("shared"), model("static")]);
    let directory = sharing.for_account(&discovered);
    assert_eq!(directory.len(), 3);
    assert_eq!(directory.get("shared").expect("the model").maximum_output_tokens, Some(7));
    assert!(sharing.account_model(&discovered, "static").is_some());
    assert!(sharing.account_model(&discovered, "other").is_none());
    let alone = discovering(false, vec![]);
    assert_eq!(alone.for_account(&discovered).len(), 2);
    assert!(alone.account_model(&discovered, "static").is_none());
    let shown = account_models(&discovering(true, vec![model("static")]), None).ok().expect("models");
    assert_eq!(shown.models.len(), 1);
    assert_eq!(shown.observed_at_ms, None);
}

#[test]
fn an_account_is_asked_for_its_models() {
    let catalog = discovering(false, vec![]);
    assert_eq!(begin(&catalog, &account("a"), "custom").ok(), Some(60));
    assert_eq!(
        begin(&catalog, &account("a"), "other").err().map(|e| e.kind),
        Some(ProviderAdminErrorKind::Invalid)
    );
    let credential = LoadedCredential { account: account("a"), credential: vec![] };
    assert!(credential_loaded(&account("a"), &credential).is_ok());
    let moved = ProviderAccount { revision: 5, ..account("a") };
    assert!(credential_loaded(&moved, &credential).is_err());
    let unusable = ProviderAdminError { kind: ProviderAdminErrorKind::BadGateway };
    let answer = DiscoveredModels {
        catalog: found(vec![model("m")]),
        prepared_account_facts: None,
    };
    assert!(matches!(
        answered(&catalog, unusable, &credential, answer),
        Ok(DiscoveryStep::Recheck(models)) if models.models.len() == 1
    ));
    let broken = DiscoveredModels {
        catalog: found(vec![model("m"), model("m")]),
        prepared_account_facts: None,
    };
    assert_eq!(
        answered(&catalog, unusable, &credential, broken).err().map(|e| e.kind),
        Some(ProviderAdminErrorKind::BadGateway)
    );
    assert!(rechecked(&account("a"), StoreReply::Done(Some(account("a")))).is_ok());
    assert_eq!(
        rechecked(&account("a"), StoreReply::Done(Some(moved))).err().map(|e| e.kind),
        Some(ProviderAdminErrorKind::Conflict)
    );
}

#[test]
fn accounts_that_serve_a_model_are_kept() {
    let catalog = discovering(false, vec![]);
    assert!(matches!(
        choose_account(&catalog, &found(vec![model("m")]), "m"),
        Ok(AccountChoice::Compare(compiled)) if compiled.model == "m"
    ));
    assert!(matches!(
        choose_account(&catalog, &found(vec![]), "m"),
        Ok(AccountChoice::Unlisted { allowed: false })
    ));
    let open = AccountModels { models: vec![], exhaustive: false };
    assert!(matches!(
        choose_account(&catalog, &open, "m"),
        Ok(AccountChoice::Unlisted { allowed: true })
    ));
    let three = || vec![account("a"), account("b"), account("c")];
    let kept = filter_model_accounts(
        three(),
        &vec![AccountAnswer::Failed, AccountAnswer::Refused, AccountAnswer::Allowed],
    );
    let kept = kept.ok().expect("accounts");
    assert_eq!(kept.len(), 1);
    assert_eq!(kept[0].id, "c");
    let none = vec![AccountAnswer::Failed, AccountAnswer::Refused, AccountAnswer::Refused];
    assert_eq!(
        filter_model_accounts(three(), &none).err().map(|e| e.kind),
        Some(ProviderErrorKind::ProviderInfrastructureUnavailable)
    );
    assert_eq!(
        filter_model_accounts(vec![account("a")], &vec![AccountAnswer::Refused])
            .ok()
            .expect("none")
            .len(),
        0
    );
}

const SECOND: u64 = 1_000_000_000;

fn publish(cache: &mut CatalogCache, id: &str, bytes: usize, now: u64) -> Option<
    ProviderAdminErrorKind,
> {
    let token = cache.account_invalidation_token();
    cache
        .publish(
            account(id),
            found(vec![model(id)]),
            bytes,
            60,
            token,
            Publication::Account,
            now,
            1,
        )
        .err()
        .map(|error| error.kind)
}

#[test]
fn models_are_kept_for_a_while() {
    let mut cache = CatalogCache::new();
    assert_eq!(publish(&mut cache, "a", 10, 0), None);
    let kept = cache.read(&account("a"), u128::from(59 * SECOND)).expect("kept models");
    assert_eq!(kept.catalog.models.len(), 1);
    let shown = account_models(&discovering(false, vec![]), Some(&kept)).ok().expect("models");
    assert_eq!(shown.observed_at_ms, Some(1));
    let moved = ProviderAccount { revision: 5, ..account("a") };
    assert!(cache.read(&moved, 0).is_none());
    assert!(cache.read(&account("a"), u128::from(60 * SECOND)).is_none());
    assert!(cache.read(&account("a"), 0).is_none());
}

#[test]
fn what_became_invalid_is_not_published() {
    let mut cache = CatalogCache::new();
    let token = cache.account_invalidation_token();
    let generation = cache.generation(0);
    cache.invalidate(&vec!["a".to_owned()]);
    assert!(cache.generation(0) > generation);
    let late = cache.publish(
        account("a"),
        found(vec![]),
        10,
        60,
        token,
        Publication::Account,
        0,
        1,
    );
    assert_eq!(late.err().map(|e| e.kind), Some(ProviderAdminErrorKind::Conflict));
    cache.invalidate(&vec![]);
    assert_eq!(cache.account_invalidation_token(), token + 1);
}

#[test]
fn the_cache_is_bounded() {
    let mut cache = CatalogCache::new();
    let kept = |cache: &mut CatalogCache| {
        let names = (0..=MAX_ENTRIES).map(|i| format!("a{i}"));
        names.filter(|name| cache.read(&account(name), 300).is_some()).count()
    };
    for i in 0..=MAX_ENTRIES {
        assert_eq!(publish(&mut cache, &format!("a{i}"), 10, i as u64), None);
    }
    assert_eq!(kept(&mut cache), MAX_ENTRIES);
    assert!(cache.read(&account("a0"), 300).is_none());
    assert!(cache.read(&account("a1"), 300).is_some());
    assert_eq!(publish(&mut cache, "big", MAX_BYTES, 300), None);
    assert_eq!(kept(&mut cache), 0);
    assert!(cache.read(&account("big"), 300).is_some());
    assert_eq!(
        publish(&mut cache, "bigger", MAX_BYTES + 1, 300),
        Some(ProviderAdminErrorKind::Unavailable)
    );
}

#[test]
fn a_directory_is_published_for_its_revision() {
    let mut cache = CatalogCache::new();
    let revision = cache.directory_revision();
    let table = || {
        let mut table: SortedTable<ModelDescriptor> = SortedTable::new();
        table.insert("m".to_owned(), model("m"));
        table
    };
    assert!(cache.publish_directory(table(), 10, 60, revision, 0).is_ok());
    assert_eq!(cache.directory(u128::from(SECOND)).expect("a directory").len(), 1);
    assert_eq!(publish(&mut cache, "a", 10, 0), None);
    assert!(cache.directory(0).is_none());
    assert_eq!(
        cache.publish_directory(table(), 10, 60, revision, 0).err().map(|e| e.kind),
        Some(ProviderAdminErrorKind::Conflict)
    );
    let revision = cache.directory_revision();
    assert!(cache.publish_directory(table(), 10, 60, revision, 0).is_ok());
    assert_eq!(publish(&mut cache, "a", 10, 0), None);
    assert!(cache.directory(0).is_some());
    assert!(cache.directory(u128::from(60 * SECOND)).is_none());
}

#[test]
fn one_credential_is_asked_once_at_a_time() {
    let mut cache = CatalogCache::new();
    assert_eq!(cache.refresh_lock(&account("a"), &vec![], 1).ok(), Some(1));
    assert_eq!(cache.refresh_lock(&account("a"), &vec![1], 2).ok(), Some(1));
    let moved = ProviderAccount { revision: 5, ..account("a") };
    assert_eq!(cache.refresh_lock(&moved, &vec![1], 2).ok(), Some(2));
    assert_eq!(cache.refresh_lock(&account("a"), &vec![2], 3).ok(), Some(3));
    let mut held: Vec<u64> = vec![2, 3];
    for ticket in 10..72 {
        assert!(cache.refresh_lock(&account(&format!("b{ticket}")), &held, ticket).is_ok());
        held.push(ticket);
    }
    assert_eq!(
        cache.refresh_lock(&account("last"), &held, 99).err().map(|e| e.kind),
        Some(ProviderAdminErrorKind::Unavailable)
    );
}

#[test]
fn a_directory_is_put_together_from_accounts() {
    let candidate = |id: &str, status, in_scope| CatalogAccount {
        account: account(id),
        status,
        in_scope,
    };
    let asked = catalog_accounts(
        vec![
            candidate("c", AccountStatus::QuotaExhausted, true),
            candidate("a", AccountStatus::Normal, true),
            candidate("b", AccountStatus::Other, true),
            candidate("d", AccountStatus::Normal, false),
        ],
        "custom",
    )
    .ok()
    .expect("accounts");
    let names: Vec<&str> = asked.iter().map(|one| one.id.as_str()).collect();
    assert_eq!(names, vec!["a", "c"]);
    let catalog = discovering(false, vec![]);
    let mut merge = DirectoryMerge::begin(&catalog, false).ok().expect("a merge");
    let answer = found(vec![ModelDescriptor {
        features: vec![ModelFeature::Vision],
        ..model("m")
    }]);
    assert!(merge.account(&catalog, Some(&answer), None).is_ok());
    assert!(merge.account(&catalog, None, None).is_ok());
    let directory = merge.finish().ok().expect("a directory");
    assert_eq!(compile_all(&directory).ok().expect("models").len(), 1);
    let shown = client_catalog(&directory).expect("models");
    assert_eq!(shown[0].model, "m");
    assert!(shown[0].image_input);
    assert!(!shown[0].agent_tools);
    let mut failing = DirectoryMerge::begin(&catalog, false).ok().expect("a merge");
    assert!(failing.account(&catalog, None, None).is_ok());
    assert_eq!(
        failing.finish().err().map(|e| e.kind),
        Some(ProviderErrorKind::ProviderInfrastructureUnavailable)
    );
}

fn question(refresh: bool) -> (Discovery, DiscoveryAction) {
    Discovery::new(
        &discovering(false, vec![]),
        account("a"),
        "custom",
        refresh,
        Publication::Account,
    )
    .ok()
    .expect("a question")
}

fn kept_models() -> std::sync::Arc<gateway_plugin::catalog::cache::CachedModels> {
    let mut cache = CatalogCache::new();
    assert_eq!(publish(&mut cache, "a", 10, 0), None);
    cache.read(&account("a"), 1).expect("kept models")
}

fn loaded() -> DiscoveryEvent {
    DiscoveryEvent::CredentialLoaded(Ok(LoadedCredential {
        account: account("a"),
        credential: vec![],
    }))
}

fn told(facts: Option<CredentialFacts>) -> DiscoveryEvent {
    DiscoveryEvent::Answered {
        answer: Ok(DiscoveredModels {
            catalog: found(vec![model("m")]),
            prepared_account_facts: facts,
        }),
        unusable: ProviderAdminError { kind: ProviderAdminErrorKind::BadGateway },
    }
}

fn walk(refresh: bool, events: Vec<DiscoveryEvent>) -> DiscoveryAction {
    let catalog = discovering(false, vec![]);
    let (mut machine, mut action) = question(refresh);
    for event in events {
        (machine, action) = machine.step(&catalog, event);
    }
    action
}

fn failed(action: DiscoveryAction) -> Option<ProviderAdminErrorKind> {
    match action {
        DiscoveryAction::Fail(error) => Some(error.kind),
        _ => None,
    }
}

#[test]
fn what_is_kept_answers_unless_a_new_answer_is_wanted() {
    assert!(matches!(question(false).1, DiscoveryAction::ReadCache));
    assert!(matches!(question(true).1, DiscoveryAction::Lock));
    let cached = || DiscoveryEvent::CacheRead(Some(kept_models()));
    assert!(matches!(walk(false, vec![cached()]), DiscoveryAction::AnswerCached(_)));
    let nothing = || DiscoveryEvent::CacheRead(None);
    assert!(matches!(
        walk(false, vec![nothing(), DiscoveryEvent::Locked(Ok(())), cached()]),
        DiscoveryAction::AnswerCached(_)
    ));
    assert!(matches!(
        walk(false, vec![nothing(), DiscoveryEvent::Locked(Ok(())), nothing()]),
        DiscoveryAction::ReadToken
    ));
    assert!(matches!(
        walk(true, vec![DiscoveryEvent::Locked(Ok(()))]),
        DiscoveryAction::ReadToken
    ));
    for refused in [
        Discovery::new(
            &discovering(false, vec![]),
            account("a"),
            "other",
            true,
            Publication::Account,
        ),
        Discovery::new(
            &ModelCatalog { static_models: vec![], discovery: None },
            account("a"),
            "custom",
            true,
            Publication::Account,
        ),
    ] {
        assert_eq!(refused.err().map(|e| e.kind), Some(ProviderAdminErrorKind::Invalid));
    }
}

fn to_answer() -> Vec<DiscoveryEvent> {
    vec![DiscoveryEvent::Locked(Ok(())), DiscoveryEvent::TokenRead(7), loaded()]
}

#[test]
fn an_answer_is_published_with_the_number_read_before() {
    let mut events = to_answer();
    assert!(matches!(walk(true, to_answer()), DiscoveryAction::Ask));
    events.push(told(None));
    events.push(DiscoveryEvent::AccountRead(StoreReply::Done(Some(account("a")))));
    assert!(matches!(
        walk(true, events),
        DiscoveryAction::Publish { token: 7, ttl_seconds: 60, account, models, .. }
            if account.id == "a" && models.models.len() == 1
    ));
    let mut events = to_answer();
    events.push(told(None));
    events.push(DiscoveryEvent::AccountRead(StoreReply::Done(Some(account("a")))));
    events.push(DiscoveryEvent::Published(Ok(kept_models())));
    assert!(matches!(walk(true, events), DiscoveryAction::Answer(_)));
}

#[test]
fn a_question_fails_where_something_changed() {
    let moved = || ProviderAccount { revision: 5, ..account("a") };
    let conflict = Some(ProviderAdminErrorKind::Conflict);
    let mut events = to_answer();
    events.push(told(None));
    events.push(DiscoveryEvent::AccountRead(StoreReply::Done(Some(moved()))));
    assert_eq!(failed(walk(true, events)), conflict);
    let events = vec![
        DiscoveryEvent::Locked(Ok(())),
        DiscoveryEvent::TokenRead(7),
        DiscoveryEvent::CredentialLoaded(Ok(LoadedCredential {
            account: moved(),
            credential: vec![],
        })),
    ];
    assert_eq!(failed(walk(true, events)), conflict);
    let new = || CredentialFacts {
        name: "other".to_owned(),
        authentication_kind: "oauth".to_owned(),
        material: vec![("token".to_owned(), Json::text("t"))],
        email: None,
        upstream_user_id: None,
        upstream_account_id: None,
        plan_type: None,
        has_refresh_token: false,
        access_token_expires_at_ms: None,
        next_refresh_at_ms: None,
    };
    let mut events = to_answer();
    events.push(told(Some(new())));
    assert!(matches!(walk(true, events), DiscoveryAction::Save(_)));
    let mut events = to_answer();
    events.push(told(Some(new())));
    events.push(DiscoveryEvent::Saved(Ok(())));
    events.push(DiscoveryEvent::AccountRead(StoreReply::Done(Some(account("a")))));
    assert_eq!(failed(walk(true, events)), conflict);
    let mut events = to_answer();
    events.push(told(Some(new())));
    events.push(DiscoveryEvent::Saved(Err(AdminErrorKind::NotFound)));
    assert_eq!(failed(walk(true, events)), Some(ProviderAdminErrorKind::NotFound));
    assert_eq!(
        failed(walk(true, vec![DiscoveryEvent::TimedOut])),
        Some(ProviderAdminErrorKind::Unavailable)
    );
}

#[test]
fn a_directory_that_is_too_large_is_refused() {
    let catalog = discovering(false, vec![]);
    let many = |from: usize| found((from..from + 4096).map(|i| model(&format!("m{i}"))).collect());
    let mut merge = DirectoryMerge::begin(&catalog, false).ok().expect("a merge");
    assert!(merge.account(&catalog, Some(&many(0)), None).is_ok());
    assert_eq!(
        merge.account(&catalog, Some(&many(1)), None).err().map(|e| e.kind),
        Some(ProviderErrorKind::ProviderInfrastructureUnavailable)
    );
}
