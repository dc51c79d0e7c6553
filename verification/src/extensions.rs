//! The providers that plugins add to the gateway, by published set, and the plugins that a request
//! has gone through.

use std::sync::Arc;
use vstd::prelude::*;

use crate::sorted::{is_flagged, SortedTable};
use crate::table::{entry, find, table};
use crate::text::{
    ascending, copy_texts, holds, is_ascending, lemma_ascending_is_distinct, same, texts,
};

verus! {

/// The plugin instances that a request has entered. It goes along with every request that a plugin
/// makes on behalf of another, so that no plugin is entered twice on one way.
#[derive(Debug, PartialEq, Eq)]
pub struct ExtensionCallScope {
    instance_ids: Vec<String>,
}

impl View for ExtensionCallScope {
    type V = Set<Seq<char>>;

    closed spec fn view(&self) -> Set<Seq<char>> {
        texts(self.instance_ids@).to_set()
    }
}

impl Default for ExtensionCallScope {
    fn default() -> (scope: Self)
        ensures
            scope@ == Set::<Seq<char>>::empty(),
    {
        let scope = ExtensionCallScope { instance_ids: Vec::new() };
        proof {
            assert(texts(scope.instance_ids@) =~= Seq::<Seq<char>>::empty());
            assert(scope@ =~= Set::<Seq<char>>::empty());
        }
        scope
    }
}

impl Clone for ExtensionCallScope {
    fn clone(&self) -> (scope: Self)
        ensures
            scope@ == self@,
    {
        proof {
            use_type_invariant(self);
        }
        ExtensionCallScope { instance_ids: copy_texts(&self.instance_ids) }
    }
}

impl ExtensionCallScope {
    /// The instances are in rising order, each once.
    #[verifier::type_invariant]
    closed spec fn well_formed(&self) -> bool {
        is_ascending(texts(self.instance_ids@))
    }

    /// Whether the request has entered an instance.
    #[must_use]
    pub fn contains(&self, instance_id: &str) -> (r: bool)
        ensures
            r == self@.contains(instance_id@),
    {
        holds(&self.instance_ids, instance_id)
    }

    /// How many instances the request has entered.
    #[must_use]
    pub fn len(&self) -> (n: usize)
        ensures
            n == self@.len(),
            self@.finite(),
    {
        proof {
            use_type_invariant(self);
            lemma_ascending_is_distinct(texts(self.instance_ids@));
            texts(self.instance_ids@).unique_seq_to_set();
            vstd::seq_lib::seq_to_set_is_finite(texts(self.instance_ids@));
        }
        self.instance_ids.len()
    }

    /// Whether the request has entered no instance.
    #[must_use]
    pub fn is_empty(&self) -> (r: bool)
        ensures
            r == (self@ == Set::<Seq<char>>::empty()),
    {
        proof {
            let names = texts(self.instance_ids@);
            if names.len() == 0 {
                assert(names.to_set() =~= Set::<Seq<char>>::empty());
            } else {
                assert(names.to_set().contains(names[0]));
            }
        }
        self.instance_ids.len() == 0
    }

    /// The scope of a request that the given instance makes. There is none where the request has
    /// entered that instance already: it would come back to itself.
    #[must_use]
    pub fn extending(&self, instance_id: String) -> (extended: Option<Self>)
        ensures
            extended is Some == !self@.contains(instance_id@),
            extended matches Some(scope) ==> scope@ == self@.insert(instance_id@),
    {
        if self.contains(instance_id.as_str()) {
            return None;
        }
        let mut names = copy_texts(&self.instance_ids);
        names.push(instance_id);
        let instance_ids = ascending(&names);
        proof {
            let old_names = texts(self.instance_ids@);
            let new_names = texts(names@);
            assert(new_names =~= old_names.push(instance_id@));
            assert forall|t: Seq<char>| new_names.to_set().contains(t) == old_names.to_set().insert(
                instance_id@,
            ).contains(t) by {
                if old_names.contains(t) {
                    let k = choose|k: int| 0 <= k < old_names.len() && old_names[k] == t;
                    assert(new_names[k] == t);
                }
                if t == instance_id@ {
                    assert(new_names[new_names.len() - 1] == t);
                }
            }
            assert(new_names.to_set() =~= old_names.to_set().insert(instance_id@));
        }
        Some(ExtensionCallScope { instance_ids })
    }
}

/// A request that went through one instance and then another cannot come back to the first, however
/// many instances it goes through in between: no scope that was reached from another lets an
/// instance in that the other holds.
pub proof fn scopes_only_grow(
    scope: ExtensionCallScope,
    extended: ExtensionCallScope,
    added: Seq<char>,
    instance_id: Seq<char>,
)
    requires
        extended@ == scope@.insert(added),
        scope@.contains(instance_id) || instance_id == added,
    ensures
        extended@.contains(instance_id),
{
}

/// Each step of a request through the plugins makes its scope larger by one, so that a limit on the
/// size of the scope limits the number of steps.
pub proof fn each_step_counts(
    scope: ExtensionCallScope,
    extended: ExtensionCallScope,
    added: Seq<char>,
)
    requires
        scope@.finite(),
        !scope@.contains(added),
        extended@ == scope@.insert(added),
    ensures
        extended@.len() == scope@.len() + 1,
{
}

/// Why providers cannot be put together.
#[derive(Debug, PartialEq, Eq)]
pub enum RegistryError {
    /// Two providers have the same kind.
    Duplicate { provider: String },
    /// The set was published before and is still in use.
    DuplicateGeneration,
    /// The request names no set that is in use.
    MissingGeneration,
}

/// Providers by their kind, each kind once.
pub struct ProviderRegistry<P> {
    pub providers: Vec<(String, Arc<P>)>,
    /// Sets of providers can be looked up besides.
    pub extensible: bool,
}

/// The kinds of providers.
pub open spec fn kinds<P>(providers: Seq<(String, Arc<P>)>) -> Seq<Seq<char>> {
    Seq::new(providers.len(), |i: int| providers[i].0@)
}

/// A provider has the same kind as one before it.
pub open spec fn is_repeated<P>(providers: Seq<(String, Arc<P>)>, i: int) -> bool {
    exists|j: int| 0 <= j < i && (#[trigger] providers[j]).0@ == providers[i].0@
}

/// No two providers have the same kind.
pub open spec fn are_distinct<P>(providers: Seq<(String, Arc<P>)>) -> bool {
    forall|i: int| 0 <= i < providers.len() ==> !(#[trigger] is_repeated(providers, i))
}

impl<P> ProviderRegistry<P> {
    /// The providers, by kind.
    pub open spec fn spec_table(&self) -> Map<Seq<char>, Arc<P>> {
        table(self.providers@)
    }

    pub fn new(providers: Vec<(String, Arc<P>)>) -> (result: Result<Self, RegistryError>)
        ensures
            match result {
                Ok(registry) => are_distinct(providers@) && registry.providers == providers
                    && !registry.extensible,
                Err(error) => exists|i: int|
                    {
                        &&& 0 <= i < providers@.len()
                        &&& #[trigger] is_repeated(providers@, i)
                        &&& forall|j: int|
                            0 <= j < i ==> !(#[trigger] is_repeated(providers@, j))
                        &&& error == (RegistryError::Duplicate { provider: providers@[i].0 })
                    },
            },
    {
        for i in 0..providers.len()
            invariant
                forall|j: int| 0 <= j < i ==> !(#[trigger] is_repeated(providers@, j)),
        {
            for j in 0..i
                invariant
                    i < providers@.len(),
                    forall|k: int| 0 <= k < i ==> !(#[trigger] is_repeated(providers@, k)),
                    forall|k: int|
                        0 <= k < j ==> (#[trigger] providers@[k]).0@ != providers@[i as int].0@,
            {
                if same(providers[j].0.as_str(), providers[i].0.as_str()) {
                    assert(providers@[j as int].0@ == providers@[i as int].0@);
                    assert(is_repeated(providers@, i as int));
                    return Err(RegistryError::Duplicate { provider: providers[i].0.clone() });
                }
            }
        }
        Ok(ProviderRegistry { providers, extensible: false })
    }

    /// Whether there is a provider of a kind.
    pub fn contains(&self, kind: &str) -> (r: bool)
        ensures
            r == self.spec_table().contains_key(kind@),
    {
        find(&self.providers, kind).is_some()
    }

    /// The provider of a kind.
    pub fn get(&self, kind: &str) -> (provider: Option<Arc<P>>)
        ensures
            provider == entry(self.providers@, kind@),
    {
        match find(&self.providers, kind) {
            Some(k) => Some(Arc::clone(&self.providers[k].1)),
            None => None,
        }
    }

    /// Whether there is no provider.
    pub fn is_empty(&self) -> (r: bool)
        ensures
            r == (self.providers@.len() == 0),
    {
        self.providers.len() == 0
    }
}

/// The sets of providers that were published. The index does not keep a set in use: it holds a handle
/// of each, from which the set can be had as long as somebody else keeps it.
pub struct ProviderExtensionIndex<P, H> {
    base: Vec<(String, Arc<P>)>,
    sets: SortedTable<H>,
}

/// The handles that are left when the sets out of use are forgotten: those of which `alive` says that
/// they are in use.
pub open spec fn is_swept<H, A: Fn(&H) -> bool>(
    before: Map<Seq<char>, H>,
    after: Map<Seq<char>, H>,
    alive: A,
) -> bool {
    &&& forall|id: Seq<char>| #[trigger]
        after.contains_key(id) ==> before.contains_key(id) && after[id] == before[id]
            && alive.ensures((&before[id],), true)
    &&& forall|id: Seq<char>|
        before.contains_key(id) && !(#[trigger] after.contains_key(id)) ==> alive.ensures(
            (&before[id],),
            false,
        )
}

/// What a look-up may answer: what `upgrade` gives for the handle that is held under the name.
pub open spec fn is_answer<P, H, U: Fn(&H) -> Option<Arc<ProviderRegistry<P>>>>(
    held: Map<Seq<char>, H>,
    id: Seq<char>,
    upgrade: U,
    answer: Option<Arc<ProviderRegistry<P>>>,
) -> bool {
    if held.contains_key(id) {
        upgrade.ensures((&held[id],), answer)
    } else {
        answer is None
    }
}

/// What a registration does: providers of one kind are refused, and so is a set that is in use; else the
/// registry of all providers is made, and its handle is held under the set's name.
pub open spec fn is_registered<
    P,
    H,
    A: Fn(&H) -> bool,
    D: Fn(&Arc<ProviderRegistry<P>>) -> H,
>(
    before: Map<Seq<char>, H>,
    after: Map<Seq<char>, H>,
    all: Seq<(String, Arc<P>)>,
    id: Seq<char>,
    alive: A,
    downgrade: D,
    result: Result<Arc<ProviderRegistry<P>>, RegistryError>,
) -> bool {
    if !are_distinct(all) {
        &&& after == before
        &&& exists|i: int|
            {
                &&& 0 <= i < all.len()
                &&& #[trigger] is_repeated(all, i)
                &&& forall|j: int| 0 <= j < i ==> !(#[trigger] is_repeated(all, j))
                &&& result == Err::<Arc<ProviderRegistry<P>>, RegistryError>(
                    RegistryError::Duplicate { provider: all[i].0 },
                )
            }
    } else {
        match result {
            Ok(registry) => {
                &&& registry.providers@ == all
                &&& !registry.extensible
                &&& after.contains_key(id)
                &&& downgrade.ensures((&registry,), after[id])
                &&& is_swept(before, after.remove(id), alive)
            },
            Err(error) => {
                &&& error == RegistryError::DuplicateGeneration
                &&& after.contains_key(id)
                &&& is_swept(before, after, alive)
            },
        }
    }
}

impl<P, H> ProviderExtensionIndex<P, H> {
    /// The providers of the gateway itself.
    pub closed spec fn base(&self) -> Seq<(String, Arc<P>)> {
        self.base@
    }

    /// The handle of each set that is noted.
    pub closed spec fn held(&self) -> Map<Seq<char>, H> {
        self.sets@
    }

    /// The sets are in order.
    pub closed spec fn well_formed(&self) -> bool {
        self.sets.well_formed()
    }

    /// An index over the providers of the gateway itself.
    #[must_use]
    pub fn new(base: ProviderRegistry<P>) -> (index: Self)
        ensures
            index.well_formed(),
            index.base() == base.providers@,
            index.held() == Map::<Seq<char>, H>::empty(),
    {
        ProviderExtensionIndex { base: base.providers, sets: SortedTable::new() }
    }

    fn base_providers(&self) -> (providers: Vec<(String, Arc<P>)>)
        ensures
            providers@ == self.base(),
    {
        let mut providers: Vec<(String, Arc<P>)> = Vec::new();
        for i in 0..self.base.len()
            invariant
                providers@ == self.base@.take(i as int),
        {
            providers.push((self.base[i].0.clone(), Arc::clone(&self.base[i].1)));
            assert(providers@ =~= self.base@.take(i + 1));
        }
        assert(providers@ =~= self.base@);
        providers
    }

    /// Forgets the sets that are out of use.
    fn sweep<A: Fn(&H) -> bool>(&mut self, alive: &A)
        requires
            old(self).well_formed(),
            forall|handle: &H| alive.requires((handle,)),
        ensures
            final(self).well_formed(),
            final(self).base() == old(self).base(),
            is_swept(old(self).held(), final(self).held(), *alive),
    {
        let ghost items = self.sets.items();
        let mut flags: Vec<bool> = Vec::new();
        let total = self.sets.len();
        for i in 0..total
            invariant
                *self == *old(self),
                items == self.sets.items(),
                total == items.len(),
                flags@.len() == i,
                forall|handle: &H| alive.requires((handle,)),
                forall|k: int|
                    0 <= k < i ==> alive.ensures((&items[k].1,), #[trigger] flags@[k]),
        {
            let flag = alive(&self.sets.at(i).1);
            flags.push(flag);
        }
        proof {
            self.sets.lemma_items();
        }
        let _ = self.sets.partition(&flags);
        proof {
            let before = old(self).held();
            let after = self.held();
            assert forall|id: Seq<char>| #[trigger] after.contains_key(id) implies before.contains_key(
                id,
            ) && after[id] == before[id] && alive.ensures((&before[id],), true) by {
                assert(is_flagged(items, flags@, id));
                let i = choose|i: int|
                    0 <= i < items.len() && flags@[i] && (#[trigger] items[i]).0@ == id;
                assert(alive.ensures((&items[i].1,), flags@[i]));
            }
            assert forall|id: Seq<char>|
                before.contains_key(id) && !(#[trigger] after.contains_key(
                    id,
                )) implies alive.ensures((&before[id],), false) by {
                let i = choose|i: int| 0 <= i < items.len() && (#[trigger] items[i]).0@ == id;
                if flags@[i] {
                    assert(is_flagged(items, flags@, id));
                }
                assert(alive.ensures((&items[i].1,), flags@[i]));
            }
        }
    }

    /// Puts the gateway's own providers and those of a set together, and notes the set. The
    /// providers must have different kinds, and the set must not be in use. `alive` says of a handle
    /// whether its set is in use, and `downgrade` makes the handle of a set; whoever asked keeps the
    /// set itself.
    pub fn register<A: Fn(&H) -> bool, D: Fn(&Arc<ProviderRegistry<P>>) -> H>(
        &mut self,
        id: String,
        providers: Vec<(String, Arc<P>)>,
        alive: A,
        downgrade: D,
    ) -> (result: Result<Arc<ProviderRegistry<P>>, RegistryError>)
        requires
            old(self).well_formed(),
            forall|handle: &H| alive.requires((handle,)),
            forall|registry: &Arc<ProviderRegistry<P>>| downgrade.requires((registry,)),
        ensures
            final(self).well_formed(),
            final(self).base() == old(self).base(),
            is_registered(
                old(self).held(),
                final(self).held(),
                old(self).base() + providers@,
                id@,
                alive,
                downgrade,
                result,
            ),
    {
        let ghost all = old(self).base() + providers@;
        let mut together = self.base_providers();
        let mut added = providers;
        together.append(&mut added);
        assert(together@ =~= all);
        let registry = match ProviderRegistry::new(together) {
            Ok(registry) => Arc::new(registry),
            Err(error) => return Err(error),
        };
        self.sweep(&alive);
        if self.sets.get(id.as_str()).is_some() {
            return Err(RegistryError::DuplicateGeneration);
        }
        let handle = downgrade(&registry);
        let ghost swept = self.held();
        self.sets.insert(id, handle);
        assert(self.held().remove(id@) =~= swept);
        Ok(registry)
    }

    /// The registry that the gateway starts from: its own providers, and a way to those of a set.
    #[must_use]
    pub fn registry(&self) -> (registry: ProviderRegistry<P>)
        ensures
            registry.providers@ == self.base(),
            registry.extensible,
    {
        ProviderRegistry { providers: self.base_providers(), extensible: true }
    }

    /// The handle that is held under the name of a set.
    pub fn handle(&self, id: &str) -> (handle: Option<&H>)
        ensures
            handle is Some == self.held().contains_key(id@),
            handle matches Some(found) ==> *found == self.held()[id@],
    {
        self.sets.get(id)
    }

    /// The registry of a set that was published, as long as somebody keeps it. `upgrade` gives the
    /// set of a handle, where it is still there.
    pub fn resolve<U: Fn(&H) -> Option<Arc<ProviderRegistry<P>>>>(&self, id: &str, upgrade: U) -> (
        registry: Option<Arc<ProviderRegistry<P>>>)
        requires
            forall|handle: &H| upgrade.requires((handle,)),
        ensures
            is_answer(self.held(), id@, upgrade, registry),
    {
        match self.handle(id) {
            Some(handle) => upgrade(handle),
            None => None,
        }
    }
}

impl<P> ProviderRegistry<P> {
    /// The providers that a request has which names a set: those of the gateway and of that set, as
    /// it is noted in the index now. There is no default set, so a request that names none has none.
    pub fn for_extensions<H, U: Fn(&H) -> Option<Arc<ProviderRegistry<P>>>>(
        &self,
        index: &ProviderExtensionIndex<P, H>,
        set: Option<&str>,
        upgrade: U,
    ) -> (result: Result<Arc<ProviderRegistry<P>>, RegistryError>)
        requires
            self.extensible,
            forall|handle: &H| upgrade.requires((handle,)),
        ensures
            match set {
                None => result == Err::<Arc<ProviderRegistry<P>>, RegistryError>(
                    RegistryError::MissingGeneration,
                ),
                Some(id) => match result {
                    Ok(registry) => is_answer(index.held(), id@, upgrade, Some(registry)),
                    Err(error) => error == RegistryError::MissingGeneration && is_answer(
                        index.held(),
                        id@,
                        upgrade,
                        None,
                    ),
                },
            },
    {
        match set {
            Some(id) => match index.resolve(id, upgrade) {
                Some(registry) => Ok(registry),
                None => Err(RegistryError::MissingGeneration),
            },
            None => Err(RegistryError::MissingGeneration),
        }
    }
}

/// A handle leads back to the set that it was made of, or to nothing.
pub open spec fn leads_back<
    P,
    H,
    D: Fn(&Arc<ProviderRegistry<P>>) -> H,
    U: Fn(&H) -> Option<Arc<ProviderRegistry<P>>>,
>(downgrade: D, upgrade: U) -> bool {
    forall|registry: Arc<ProviderRegistry<P>>, handle: H, found: Arc<ProviderRegistry<P>>|
        #![trigger downgrade.ensures((&registry,), handle), upgrade.ensures((&handle,), Some(found))]
        downgrade.ensures((&registry,), handle) && upgrade.ensures((&handle,), Some(found))
            ==> found == registry
}

/// A set that is out of use is not found, whoever looks for it.
pub open spec fn gone_is_not_found<
    P,
    H,
    A: Fn(&H) -> bool,
    U: Fn(&H) -> Option<Arc<ProviderRegistry<P>>>,
>(alive: A, upgrade: U) -> bool {
    forall|handle: H, found: Option<Arc<ProviderRegistry<P>>>|
        #![trigger alive.ensures((&handle,), false), upgrade.ensures((&handle,), found)]
        alive.ensures((&handle,), false) ==> (upgrade.ensures((&handle,), found) <==> found is None)
}

/// Some registration under a name other than the given one was made, or refused.
pub open spec fn is_registered_elsewhere<
    P,
    H,
    A: Fn(&H) -> bool,
    D: Fn(&Arc<ProviderRegistry<P>>) -> H,
>(
    before: Map<Seq<char>, H>,
    after: Map<Seq<char>, H>,
    id: Seq<char>,
    alive: A,
    downgrade: D,
) -> bool {
    exists|
        all: Seq<(String, Arc<P>)>,
        other: Seq<char>,
        result: Result<Arc<ProviderRegistry<P>>, RegistryError>,
    |
        other != id && #[trigger] is_registered(before, after, all, other, alive, downgrade, result)
}

/// What is held under a name stays, or is forgotten, when another set is registered.
proof fn lemma_held_elsewhere<
    P,
    H,
    A: Fn(&H) -> bool,
    D: Fn(&Arc<ProviderRegistry<P>>) -> H,
>(before: Map<Seq<char>, H>, after: Map<Seq<char>, H>, id: Seq<char>, alive: A, downgrade: D)
    requires
        is_registered_elsewhere(before, after, id, alive, downgrade),
    ensures
        after.contains_key(id) ==> before.contains_key(id) && after[id] == before[id],
{
    let (all, other, result) = choose|
        all: Seq<(String, Arc<P>)>,
        other: Seq<char>,
        result: Result<Arc<ProviderRegistry<P>>, RegistryError>,
    |
        other != id && #[trigger] is_registered(before, after, all, other, alive, downgrade, result);
    if are_distinct(all) && result is Ok && after.contains_key(id) {
        assert(after.remove(other).contains_key(id));
        assert(after.remove(other)[id] == after[id]);
    }
}

/// A set that was published is found again: what is found under its name is what its registration
/// gave, whatever was registered or refused under other names since. `history` is what the index held
/// after the registration, and then after each later one.
pub proof fn published_is_found<
    P,
    H,
    A: Fn(&H) -> bool,
    D: Fn(&Arc<ProviderRegistry<P>>) -> H,
    U: Fn(&H) -> Option<Arc<ProviderRegistry<P>>>,
>(
    before: Map<Seq<char>, H>,
    history: Seq<Map<Seq<char>, H>>,
    all: Seq<(String, Arc<P>)>,
    id: Seq<char>,
    alive: A,
    downgrade: D,
    upgrade: U,
    registry: Arc<ProviderRegistry<P>>,
    found: Arc<ProviderRegistry<P>>,
)
    requires
        history.len() > 0,
        is_registered(before, history[0], all, id, alive, downgrade, Ok(registry)),
        forall|i: int|
            0 < i < history.len() ==> #[trigger] is_registered_elsewhere(
                history[i - 1],
                history[i],
                id,
                alive,
                downgrade,
            ),
        leads_back(downgrade, upgrade),
        is_answer(history.last(), id, upgrade, Some(found)),
    ensures
        found == registry,
    decreases history.len(),
{
    let n = history.len() - 1;
    if n == 0 {
        assert(downgrade.ensures((&registry,), history[0][id]));
        assert(upgrade.ensures((&history[0][id],), Some(found)));
    } else {
        assert(is_registered_elsewhere(history[n - 1], history[n], id, alive, downgrade));
        lemma_held_elsewhere(history[n - 1], history[n], id, alive, downgrade);
        let earlier = history.drop_last();
        assert(is_answer(earlier.last(), id, upgrade, Some(found)));
        assert forall|i: int| 0 < i < earlier.len() implies #[trigger] is_registered_elsewhere(
            earlier[i - 1],
            earlier[i],
            id,
            alive,
            downgrade,
        ) by {
            assert(is_registered_elsewhere(history[i - 1], history[i], id, alive, downgrade));
        }
        published_is_found(
            before,
            earlier,
            all,
            id,
            alive,
            downgrade,
            upgrade,
            registry,
            found,
        );
    }
}

/// A set that was published stays noted as long as it is in use: it is only forgotten where it was
/// seen to be out of use.
pub proof fn used_sets_stay<P, H, A: Fn(&H) -> bool, D: Fn(&Arc<ProviderRegistry<P>>) -> H>(
    before: Map<Seq<char>, H>,
    after: Map<Seq<char>, H>,
    all: Seq<(String, Arc<P>)>,
    id: Seq<char>,
    other: Seq<char>,
    alive: A,
    downgrade: D,
    result: Result<Arc<ProviderRegistry<P>>, RegistryError>,
)
    requires
        is_registered(before, after, all, other, alive, downgrade, result),
        before.contains_key(id),
        id != other,
        !alive.ensures((&before[id],), false),
    ensures
        after.contains_key(id),
        after[id] == before[id],
{
    if are_distinct(all) && result is Ok {
        assert(after.remove(other).contains_key(id));
    }
}

/// A registration that was refused changes no look-up: what may be answered under any name is what
/// might have been answered before.
pub proof fn refused_changes_nothing<
    P,
    H,
    A: Fn(&H) -> bool,
    D: Fn(&Arc<ProviderRegistry<P>>) -> H,
    U: Fn(&H) -> Option<Arc<ProviderRegistry<P>>>,
>(
    before: Map<Seq<char>, H>,
    after: Map<Seq<char>, H>,
    all: Seq<(String, Arc<P>)>,
    id: Seq<char>,
    alive: A,
    downgrade: D,
    upgrade: U,
    error: RegistryError,
    name: Seq<char>,
    answer: Option<Arc<ProviderRegistry<P>>>,
)
    requires
        is_registered(before, after, all, id, alive, downgrade, Err(error)),
        gone_is_not_found(alive, upgrade),
    ensures
        is_answer(after, name, upgrade, answer) <==> is_answer(before, name, upgrade, answer),
{
    if are_distinct(all) && before.contains_key(name) && !after.contains_key(name) {
        assert(alive.ensures((&before[name],), false));
        if is_answer(before, name, upgrade, answer) {
            assert(upgrade.ensures((&before[name],), answer));
        }
        if answer is None {
            assert(upgrade.ensures((&before[name],), answer) || !upgrade.ensures(
                (&before[name],),
                answer,
            ));
        }
    }
}

/// A set is refused exactly where it is in use: of two registrations under one name the second is
/// refused as long as the first is kept.
pub proof fn live_set_is_not_replaced<
    P,
    H,
    A: Fn(&H) -> bool,
    D: Fn(&Arc<ProviderRegistry<P>>) -> H,
>(
    before: Map<Seq<char>, H>,
    after: Map<Seq<char>, H>,
    all: Seq<(String, Arc<P>)>,
    id: Seq<char>,
    alive: A,
    downgrade: D,
    result: Result<Arc<ProviderRegistry<P>>, RegistryError>,
)
    requires
        is_registered(before, after, all, id, alive, downgrade, result),
        are_distinct(all),
    ensures
        result is Ok && before.contains_key(id) ==> alive.ensures((&before[id],), false),
        result is Err ==> before.contains_key(id) && alive.ensures((&before[id],), true)
            && after[id] == before[id],
{
    if result is Ok && before.contains_key(id) {
        assert(!after.remove(id).contains_key(id));
    }
}

/// A set that is in use is found: as long as its handle is never said to be out of use and leads
/// somewhere, a look-up under its name answers with what its registration gave, whatever was registered
/// or refused under other names since.
pub proof fn used_set_is_found<
    P,
    H,
    A: Fn(&H) -> bool,
    D: Fn(&Arc<ProviderRegistry<P>>) -> H,
    U: Fn(&H) -> Option<Arc<ProviderRegistry<P>>>,
>(
    before: Map<Seq<char>, H>,
    history: Seq<Map<Seq<char>, H>>,
    all: Seq<(String, Arc<P>)>,
    id: Seq<char>,
    alive: A,
    downgrade: D,
    upgrade: U,
    registry: Arc<ProviderRegistry<P>>,
    answer: Option<Arc<ProviderRegistry<P>>>,
)
    requires
        history.len() > 0,
        is_registered(before, history[0], all, id, alive, downgrade, Ok(registry)),
        forall|i: int|
            0 < i < history.len() ==> #[trigger] is_registered_elsewhere(
                history[i - 1],
                history[i],
                id,
                alive,
                downgrade,
            ),
        leads_back(downgrade, upgrade),
        !alive.ensures((&history[0][id],), false),
        !upgrade.ensures((&history[0][id],), None),
        is_answer(history.last(), id, upgrade, answer),
    ensures
        answer == Some(registry),
{
    lemma_used_stays(history, id, alive, downgrade, history.len() - 1);
    assert(upgrade.ensures((&history.last()[id],), answer));
    assert(downgrade.ensures((&registry,), history[0][id]));
}

/// The handle of a set that is in use stays held while others are registered.
proof fn lemma_used_stays<P, H, A: Fn(&H) -> bool, D: Fn(&Arc<ProviderRegistry<P>>) -> H>(
    history: Seq<Map<Seq<char>, H>>,
    id: Seq<char>,
    alive: A,
    downgrade: D,
    n: int,
)
    requires
        0 <= n < history.len(),
        history[0].contains_key(id),
        forall|i: int|
            0 < i < history.len() ==> #[trigger] is_registered_elsewhere(
                history[i - 1],
                history[i],
                id,
                alive,
                downgrade,
            ),
        !alive.ensures((&history[0][id],), false),
    ensures
        history[n].contains_key(id),
        history[n][id] == history[0][id],
    decreases n,
{
    if n > 0 {
        lemma_used_stays(history, id, alive, downgrade, n - 1);
        assert(is_registered_elsewhere(history[n - 1], history[n], id, alive, downgrade));
        let (all, other, result) = choose|
            all: Seq<(String, Arc<P>)>,
            other: Seq<char>,
            result: Result<Arc<ProviderRegistry<P>>, RegistryError>,
        |
            other != id && #[trigger] is_registered(
                history[n - 1],
                history[n],
                all,
                other,
                alive,
                downgrade,
                result,
            );
        used_sets_stay(
            history[n - 1],
            history[n],
            all,
            id,
            other,
            alive,
            downgrade,
            result,
        );
    }
}

/// A name that nothing was registered under is not found, and neither is a set that is out of use.
pub proof fn nothing_else_is_found<
    P,
    H,
    A: Fn(&H) -> bool,
    U: Fn(&H) -> Option<Arc<ProviderRegistry<P>>>,
>(
    held: Map<Seq<char>, H>,
    id: Seq<char>,
    alive: A,
    upgrade: U,
    answer: Option<Arc<ProviderRegistry<P>>>,
)
    requires
        is_answer(held, id, upgrade, answer),
        gone_is_not_found(alive, upgrade),
        held.contains_key(id) ==> alive.ensures((&held[id],), false),
    ensures
        answer is None,
{
    if held.contains_key(id) {
        assert(upgrade.ensures((&held[id],), answer));
    }
}

/// Where a registration was refused because of providers of one kind, its name is as free as before: a
/// later registration under it whose providers differ is refused only if a set of that name was in use
/// before either of them.
pub proof fn refused_name_stays_free<
    P,
    H,
    A: Fn(&H) -> bool,
    D: Fn(&Arc<ProviderRegistry<P>>) -> H,
>(
    before: Map<Seq<char>, H>,
    refused: Map<Seq<char>, H>,
    after: Map<Seq<char>, H>,
    clashing: Seq<(String, Arc<P>)>,
    all: Seq<(String, Arc<P>)>,
    id: Seq<char>,
    alive: A,
    downgrade: D,
    first: Result<Arc<ProviderRegistry<P>>, RegistryError>,
    second: Result<Arc<ProviderRegistry<P>>, RegistryError>,
)
    requires
        !are_distinct(clashing),
        is_registered(before, refused, clashing, id, alive, downgrade, first),
        are_distinct(all),
        is_registered(refused, after, all, id, alive, downgrade, second),
        before.contains_key(id) ==> !alive.ensures((&before[id],), true),
    ensures
        first is Err,
        second is Ok,
{
    if second is Err {
        live_set_is_not_replaced(refused, after, all, id, alive, downgrade, second);
    }
}

} // verus!
