use std::sync::{Arc, Weak};

use gateway_plugin::extensions::{
    ExtensionCallScope, ProviderExtensionIndex, ProviderRegistry, RegistryError,
};

struct VersionedProvider {
    version: u64,
}

type Registry = ProviderRegistry<VersionedProvider>;
type Index = ProviderExtensionIndex<VersionedProvider, Weak<Registry>>;

fn provider(name: &str, version: u64) -> (String, Arc<VersionedProvider>) {
    (name.to_owned(), Arc::new(VersionedProvider { version }))
}

fn native_index() -> Index {
    ProviderExtensionIndex::new(
        ProviderRegistry::new(vec![provider("native", 1)]).ok().expect("distinct providers"),
    )
}

fn register(
    index: &mut Index,
    id: &str,
    providers: Vec<(String, Arc<VersionedProvider>)>,
) -> Result<Arc<Registry>, RegistryError> {
    index.register(id.to_owned(), providers, |set| set.strong_count() > 0, Arc::downgrade)
}

fn version(registry: &Registry) -> u64 {
    registry.get("dynamic").expect("a dynamic provider").version
}

#[test]
fn generations_resolve_owned_identities_and_keep_only_inflight_versions_alive() {
    let mut index = native_index();
    let registry = index.registry();
    let old = register(&mut index, "old", vec![provider("dynamic", 1)]).ok().expect("old");
    let current = register(&mut index, "current", vec![provider("dynamic", 2)]).ok().expect("new");
    let inflight =
        registry.for_extensions(&index, Some("old"), Weak::upgrade).ok().expect("in flight");
    drop(old);
    assert_eq!(version(&inflight), 1);
    assert_eq!(
        version(
            &registry.for_extensions(&index, Some("current"), Weak::upgrade).ok().expect("current")
        ),
        2
    );
    assert!(inflight.contains("native"));
    assert!(registry.for_extensions(&index, None, Weak::upgrade).is_err());
    drop(inflight);
    // The index holds no strong reference, so the same name can be registered again.
    assert!(register(&mut index, "old", vec![]).is_ok());
    drop(current);
}

#[test]
fn preparation_rejects_native_identity_collisions_and_live_generation_replacement() {
    let mut index = native_index();
    assert!(matches!(
        register(&mut index, "candidate", vec![provider("native", 2)]),
        Err(RegistryError::Duplicate { .. })
    ));
    let generation =
        register(&mut index, "candidate", vec![provider("dynamic", 1)]).ok().expect("a generation");
    assert!(matches!(
        register(&mut index, "candidate", vec![provider("dynamic", 2)]),
        Err(RegistryError::DuplicateGeneration)
    ));
    drop(generation);
}

#[test]
fn a_set_is_found_as_it_was_registered() {
    let mut index = native_index();
    let old = register(&mut index, "old", vec![provider("dynamic", 1)]).ok().expect("old");
    let current = register(&mut index, "current", vec![provider("dynamic", 2)]).ok().expect("new");
    let found = index.resolve("old", Weak::upgrade).expect("a set in use");
    assert!(Arc::ptr_eq(&found, &old));
    assert!(Arc::ptr_eq(&index.resolve("current", Weak::upgrade).expect("in use"), &current));
    assert!(index.resolve("other", Weak::upgrade).is_none());
    drop(old);
    assert!(index.resolve("old", Weak::upgrade).is_some());
    drop(found);
    assert!(index.resolve("old", Weak::upgrade).is_none());
}

#[test]
fn a_refused_registration_changes_no_look_up() {
    let mut index = native_index();
    let live = register(&mut index, "live", vec![provider("dynamic", 1)]).ok().expect("live");
    assert!(register(&mut index, "other", vec![provider("native", 2)]).is_err());
    assert!(register(&mut index, "live", vec![provider("dynamic", 2)]).is_err());
    assert!(Arc::ptr_eq(&index.resolve("live", Weak::upgrade).expect("in use"), &live));
    assert!(index.resolve("other", Weak::upgrade).is_none());
    assert!(register(&mut index, "other", vec![provider("dynamic", 3)]).is_ok());
}

#[test]
fn a_collision_names_the_provider() {
    let mut index = native_index();
    match register(&mut index, "candidate", vec![provider("native", 2)]) {
        Err(RegistryError::Duplicate { provider }) => assert_eq!(provider, "native"),
        _ => panic!("the collision must be reported"),
    }
}

#[test]
fn sets_that_nobody_keeps_are_forgotten() {
    let mut index = native_index();
    drop(register(&mut index, "first", vec![]).ok().expect("first"));
    assert!(index.handle("first").is_some());
    let _second = register(&mut index, "second", vec![]).ok().expect("second");
    assert!(index.handle("first").is_none());
    assert!(index.handle("second").is_some());
}

#[test]
fn a_request_enters_each_plugin_once() {
    let scope = ExtensionCallScope::default();
    assert!(scope.is_empty());
    assert_eq!(scope.len(), 0);
    assert!(!scope.contains("b"));
    let one = scope.extending("b".to_owned()).expect("new instance");
    let two = one.extending("a".to_owned()).expect("another instance");
    assert_eq!(two.len(), 2);
    assert!(two.contains("a") && two.contains("b") && !two.contains("c"));
    assert!(two.extending("a".to_owned()).is_none());
    assert!(!scope.contains("b"));
    assert!(two.clone() == two);
    assert!(!two.is_empty());
}
