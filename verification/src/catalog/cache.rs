//! The models of accounts and the directory of all of them, kept for a while. What is kept can
//! always be asked for again: the cache is limited in entries and bytes, and forgets first what ends
//! first.

use std::sync::Arc;
use vstd::prelude::*;

use crate::account::{is_same_identity, same_identity, ProviderAccount};
use crate::catalog::{model_views, AccountModels, ModelDescriptor, ModelFeature, OperationKind};
use crate::fault::{admin, conflict, unavailable, ProviderAdminError, ProviderAdminErrorKind};
use crate::sorted::SortedTable;
use crate::text::same;

verus! {

/// The most accounts whose models are kept.
pub const MAX_ENTRIES: usize = 256;

/// The most bytes that are kept.
pub const MAX_BYTES: usize = 8_388_608;

/// The most accounts that are asked for their models at a time.
pub const MAX_REFRESHES: usize = 64;

/// The nanoseconds of a second.
pub const NANOS_PER_SECOND: u128 = 1_000_000_000;

/// What an account was asked for its models for.
#[derive(Clone, Copy, Debug, PartialEq, Eq, Structural)]
pub enum Publication {
    Directory,
    Account,
}

/// The models of an account, as they are kept.
pub struct CachedModels {
    pub account: ProviderAccount,
    pub catalog: AccountModels,
    pub observed_at_ms: i64,
    /// When they are forgotten, in nanoseconds of the caller's clock.
    pub expires: u128,
    pub bytes: usize,
}

/// The directory of all models, as it is kept.
pub struct CachedDirectory {
    pub models: Arc<SortedTable<ModelDescriptor>>,
    pub expires: u128,
    pub bytes: usize,
}

/// An account that is being asked for its models. Whoever asks holds the ticket.
pub struct RefreshLock {
    pub account_id: String,
    pub revision: u64,
    pub ticket: u64,
}

/// What is kept of a provider's models.
pub struct CatalogCache {
    generation: u64,
    account_invalidation_token: u64,
    directory_revision: u64,
    entries: SortedTable<Arc<CachedModels>>,
    directory: Option<CachedDirectory>,
    refreshes: Vec<RefreshLock>,
}

/// What a cache holds.
pub struct CacheContents {
    /// Which models the engine knows.
    pub generation: u64,
    pub account_invalidation_token: u64,
    pub directory_revision: u64,
    /// The models of accounts, by the accounts' names.
    pub entries: SortedTable<Arc<CachedModels>>,
    pub directory: Option<CachedDirectory>,
    /// The accounts that are being asked.
    pub refreshes: Seq<RefreshLock>,
}

impl View for CatalogCache {
    type V = CacheContents;

    closed spec fn view(&self) -> CacheContents {
        CacheContents {
            generation: self.generation,
            account_invalidation_token: self.account_invalidation_token,
            directory_revision: self.directory_revision,
            entries: self.entries,
            directory: self.directory,
            refreshes: self.refreshes@,
        }
    }
}

/// The number after another; the last one stays.
pub open spec fn after(n: u64) -> u64 {
    if n < u64::MAX {
        (n + 1) as u64
    } else {
        n
    }
}

fn next(n: u64) -> (m: u64)
    ensures
        m == after(n),
{
    if n < u64::MAX {
        n + 1
    } else {
        n
    }
}

/// An entry of the cache.
pub type Item = (String, Arc<CachedModels>);

/// The bytes of several entries.
pub open spec fn total_bytes(items: Seq<Item>) -> nat
    decreases items.len(),
{
    if items.len() == 0 {
        0
    } else {
        total_bytes(items.drop_last()) + items.last().1.bytes as nat
    }
}

/// The place of the entry that ends first; of several such, the first.
pub open spec fn first_ending(items: Seq<Item>) -> int
    decreases items.len(),
{
    if items.len() <= 1 {
        0
    } else {
        let before = first_ending(items.drop_last());
        if items.last().1.expires < items[before].1.expires {
            items.len() - 1
        } else {
            before
        }
    }
}

/// Entries that leave room for some bytes, and are not too many.
pub open spec fn leaves_room(items: Seq<Item>, bytes: nat, maximum_entries: nat) -> bool {
    items.len() <= maximum_entries && total_bytes(items) + bytes <= MAX_BYTES
}

/// The entries that are left when room is made, by forgetting what ends first.
pub open spec fn with_room(items: Seq<Item>, bytes: nat, maximum_entries: nat) -> Option<Seq<Item>>
    decreases items.len(),
{
    if leaves_room(items, bytes, maximum_entries) {
        Some(items)
    } else if items.len() == 0 {
        None
    } else {
        proof {
            lemma_first_ending(items);
        }
        with_room(items.remove(first_ending(items)), bytes, maximum_entries)
    }
}

/// The entry that ends first is an entry, and none ends before it.
pub proof fn lemma_first_ending(items: Seq<Item>)
    requires
        items.len() > 0,
    ensures
        0 <= first_ending(items) < items.len(),
        forall|i: int|
            0 <= i < items.len() ==> items[first_ending(items)].1.expires <= (
            #[trigger] items[i]).1.expires,
    decreases items.len(),
{
    if items.len() > 1 {
        let front = items.drop_last();
        lemma_first_ending(front);
        assert forall|i: int| 0 <= i < items.len() implies items[first_ending(items)].1.expires <= (
        #[trigger] items[i]).1.expires by {
            if i < front.len() {
                assert(front[i] == items[i]);
            }
        }
    }
}

/// Room is made where it can be, and what was forgotten for it ends no later than what is left.
pub proof fn room_is_made_from_the_oldest(items: Seq<Item>, bytes: nat, maximum_entries: nat)
    ensures
        bytes <= MAX_BYTES ==> with_room(items, bytes, maximum_entries) is Some,
        with_room(items, bytes, maximum_entries) matches Some(left) ==> {
            &&& leaves_room(left, bytes, maximum_entries)
            &&& forall|i: int| 0 <= i < left.len() ==> items.contains(#[trigger] left[i])
            &&& forall|i: int, j: int|
                0 <= i < items.len() && 0 <= j < left.len() && !left.contains(
                    #[trigger] items[i],
                ) ==> items[i].1.expires <= (#[trigger] left[j]).1.expires
        },
    decreases items.len(),
{
    if leaves_room(items, bytes, maximum_entries) {
        assert forall|i: int| 0 <= i < items.len() implies items.contains(#[trigger] items[i]) by {}
    } else if items.len() > 0 {
        let k = first_ending(items);
        lemma_first_ending(items);
        let rest = items.remove(k);
        room_is_made_from_the_oldest(rest, bytes, maximum_entries);
        if with_room(rest, bytes, maximum_entries) is Some {
            let left = with_room(rest, bytes, maximum_entries)->0;
            assert forall|i: int| 0 <= i < left.len() implies items.contains(#[trigger] left[i]) by {
                let j = choose|j: int| 0 <= j < rest.len() && rest[j] == left[i];
                assert(items[if j < k { j } else { j + 1 }] == left[i]);
            }
            assert forall|i: int, j: int|
                0 <= i < items.len() && 0 <= j < left.len() && !left.contains(
                    #[trigger] items[i],
                ) implies items[i].1.expires <= (#[trigger] left[j]).1.expires by {
                if i == k {
                    let m = choose|m: int| 0 <= m < items.len() && items[m] == left[j];
                    assert(items[m].1.expires >= items[k].1.expires);
                } else {
                    let r = if i < k { i } else { i - 1 };
                    assert(rest[r] == items[i]);
                }
            }
        }
    } else {
        assert(total_bytes(items) == 0);
    }
}

proof fn lemma_total_bound(items: Seq<Item>)
    requires
        forall|i: int| 0 <= i < items.len() ==> (#[trigger] items[i]).1.bytes <= MAX_BYTES,
    ensures
        total_bytes(items) <= items.len() * MAX_BYTES,
    decreases items.len(),
{
    if items.len() > 0 {
        let front = items.drop_last();
        assert forall|i: int| 0 <= i < front.len() implies (#[trigger] front[i]).1.bytes
            <= MAX_BYTES by {
            assert(front[i] == items[i]);
        }
        lemma_total_bound(front);
        assert(items[items.len() - 1] == items.last());
    }
}

/// The bytes without an entry.
proof fn lemma_total_removed(items: Seq<Item>, k: int)
    requires
        0 <= k < items.len(),
    ensures
        total_bytes(items.remove(k)) == total_bytes(items) - items[k].1.bytes,
    decreases items.len(),
{
    if k == items.len() - 1 {
        assert(items.remove(k) =~= items.drop_last());
    } else {
        lemma_total_removed(items.drop_last(), k);
        assert(items.remove(k).drop_last() =~= items.drop_last().remove(k));
        assert(items.remove(k).last() == items.last());
        assert(items.drop_last()[k] == items[k]);
    }
}

/// The bytes with an entry more.
proof fn lemma_total_inserted(items: Seq<Item>, k: int, item: Item)
    requires
        0 <= k <= items.len(),
    ensures
        total_bytes(items.insert(k, item)) == total_bytes(items) + item.1.bytes,
{
    lemma_total_removed(items.insert(k, item), k);
    assert(items.insert(k, item).remove(k) =~= items);
}

/// The entries that have not ended.
pub open spec fn lasting(items: Seq<Item>, now: u128) -> Seq<Item> {
    items.filter(|item: Item| item.1.expires > now)
}

/// The bytes of the directory.
pub open spec fn directory_bytes(directory: Option<CachedDirectory>) -> nat {
    match directory {
        Some(directory) => directory.bytes as nat,
        None => 0,
    }
}


/// Two catalogs that say the same.
pub open spec fn same_catalog(a: AccountModels, b: AccountModels) -> bool {
    model_views(a.models@) == model_views(b.models@) && a.exhaustive == b.exhaustive
}

fn same_operations(a: &Vec<OperationKind>, b: &Vec<OperationKind>) -> (r: bool)
    ensures
        r == (a@ == b@),
{
    if a.len() != b.len() {
        return false;
    }
    for i in 0..a.len()
        invariant
            a@.len() == b@.len(),
            forall|j: int| 0 <= j < i ==> a@[j] == b@[j],
    {
        if a[i] != b[i] {
            return false;
        }
    }
    assert(a@ =~= b@);
    true
}

fn same_features(a: &Vec<ModelFeature>, b: &Vec<ModelFeature>) -> (r: bool)
    ensures
        r == (a@ == b@),
{
    if a.len() != b.len() {
        return false;
    }
    for i in 0..a.len()
        invariant
            a@.len() == b@.len(),
            forall|j: int| 0 <= j < i ==> a@[j] == b@[j],
    {
        if a[i] != b[i] {
            return false;
        }
    }
    assert(a@ =~= b@);
    true
}

fn same_model(a: &ModelDescriptor, b: &ModelDescriptor) -> (r: bool)
    ensures
        r == (a@ == b@),
{
    let limit = match (a.maximum_output_tokens, b.maximum_output_tokens) {
        (None, None) => true,
        (Some(x), Some(y)) => x == y,
        _ => false,
    };
    same(a.id.as_str(), b.id.as_str()) && a.is_model == b.is_model && same_operations(
        &a.operations,
        &b.operations,
    ) && same_features(&a.features, &b.features) && limit
}

fn equal_catalogs(a: &AccountModels, b: &AccountModels) -> (r: bool)
    ensures
        r == same_catalog(*a, *b),
{
    if a.exhaustive != b.exhaustive || a.models.len() != b.models.len() {
        proof {
            if a.models@.len() != b.models@.len() {
                assert(model_views(a.models@).len() != model_views(b.models@).len());
            }
        }
        return false;
    }
    for i in 0..a.models.len()
        invariant
            a.models@.len() == b.models@.len(),
            forall|j: int| 0 <= j < i ==> (#[trigger] a.models@[j])@ == b.models@[j]@,
    {
        if !same_model(&a.models[i], &b.models[i]) {
            assert(model_views(a.models@)[i as int] != model_views(b.models@)[i as int]);
            return false;
        }
    }
    assert(model_views(a.models@) =~= model_views(b.models@));
    true
}

/// Forgets the entries that have ended.
fn drop_ended(entries: &mut SortedTable<Arc<CachedModels>>, now: u128)
    requires
        old(entries).well_formed(),
    ensures
        final(entries).well_formed(),
        final(entries).items() == lasting(old(entries).items(), now),
        forall|id: Seq<char>| #[trigger]
            final(entries)@.contains_key(id) <==> old(entries)@.contains_key(id) && old(entries)@[id].expires > now,
        forall|id: Seq<char>| #[trigger]
            final(entries)@.contains_key(id) ==> final(entries)@[id] == old(entries)@[id],
{
    let ghost start = entries.items();
    let ghost lasts = |item: Item| item.1.expires > now;
    proof {
        entries.lemma_items();
    }
    let mut i: usize = entries.len();
    assert(start.skip(i as int).filter(lasts) =~= Seq::<Item>::empty()) by {
        reveal(Seq::filter);
    }
    assert(start.take(i as int) =~= start);
    assert(start =~= start.take(i as int) + start.skip(i as int).filter(lasts));
    while i > 0
        invariant
            entries.well_formed(),
            lasts == |item: Item| item.1.expires > now,
            i <= start.len(),
            entries.items() == start.take(i as int) + start.skip(i as int).filter(lasts),
        decreases i,
    {
        i = i - 1;
        proof {
            lemma_filter_front(start.skip(i as int), lasts);
            assert(start.skip(i as int).skip(1) =~= start.skip(i + 1));
            assert(start.skip(i as int)[0] == start[i as int]);
            assert(entries.items()[i as int] == start[i as int]);
        }
        let ended = entries.at(i).1.expires <= now;
        if ended {
            let ghost before = entries.items();
            let _ = entries.take(i);
            assert(entries.items() =~= start.take(i as int) + start.skip(i as int).filter(lasts));
        } else {
            assert(entries.items() =~= start.take(i as int) + start.skip(i as int).filter(lasts));
        }
    }
    proof {
        assert(start.skip(0) =~= start);
        assert(entries.items() =~= lasting(start, now));
        entries.lemma_items();
        lemma_filter_contents(start, lasts);
        let kept = entries.items();
        assert forall|id: Seq<char>| #[trigger] entries@.contains_key(id) implies old(entries)@.contains_key(id) && old(entries)@[id].expires > now && entries@[id] == old(entries)@[id] by {
            let k = choose|k: int| 0 <= k < kept.len() && (#[trigger] kept[k]).0@ == id;
            assert(kept.contains(kept[k]));
            let j = choose|j: int| 0 <= j < start.len() && start[j] == kept[k];
            assert(start[j].0@ == id);
        }
        assert forall|id: Seq<char>|
            old(entries)@.contains_key(id) && old(entries)@[id].expires > now implies
            #[trigger] entries@.contains_key(id) by {
            let j = choose|j: int| 0 <= j < start.len() && (#[trigger] start[j]).0@ == id;
            assert(lasts(start[j]));
            assert(kept.contains(start[j]));
            let k = choose|k: int| 0 <= k < kept.len() && kept[k] == start[j];
            assert(kept[k].0@ == id);
        }
    }
}

/// To filter a list is to filter what follows its first item, after that item if it stays.
proof fn lemma_filter_front(items: Seq<Item>, keep: spec_fn(Item) -> bool)
    requires
        items.len() > 0,
    ensures
        items.filter(keep) == (if keep(items[0]) {
            seq![items[0]] + items.skip(1).filter(keep)
        } else {
            items.skip(1).filter(keep)
        }),
    decreases items.len(),
{
    reveal(Seq::filter);
    if items.len() == 1 {
        assert(items.drop_last() =~= Seq::<Item>::empty());
        assert(items.skip(1) =~= Seq::<Item>::empty());
        assert(items.drop_last().filter(keep) =~= Seq::<Item>::empty());
        assert(items.skip(1).filter(keep) =~= Seq::<Item>::empty());
        assert(items.last() == items[0]);
        if keep(items[0]) {
            assert(items.filter(keep) =~= seq![items[0]] + items.skip(1).filter(keep));
        }
    } else {
        let front = items.drop_last();
        lemma_filter_front(front, keep);
        assert(front.skip(1) =~= items.skip(1).drop_last());
        assert(items.skip(1).last() == items.last());
        assert(front[0] == items[0]);
        if keep(items[0]) {
            assert(items.filter(keep) =~= seq![items[0]] + items.skip(1).filter(keep));
        } else {
            assert(items.filter(keep) =~= items.skip(1).filter(keep));
        }
    }
}

/// A filtered list holds exactly the items that stay.
proof fn lemma_filter_contents<T>(items: Seq<T>, keep: spec_fn(T) -> bool)
    ensures
        forall|item: T| #[trigger]
            items.filter(keep).contains(item) <==> items.contains(item) && keep(item),
    decreases items.len(),
{
    reveal(Seq::filter);
    let kept = items.filter(keep);
    if items.len() > 0 {
        let front = items.drop_last();
        lemma_filter_contents(front, keep);
        assert forall|item: T| #[trigger] kept.contains(item) <==> items.contains(item) && keep(
            item,
        ) by {
            let front_kept = front.filter(keep);
            if kept.contains(item) {
                let i = choose|i: int| 0 <= i < kept.len() && kept[i] == item;
                if i < front_kept.len() {
                    assert(front_kept[i] == item);
                    assert(front_kept.contains(item));
                    let j = choose|j: int| 0 <= j < front.len() && front[j] == item;
                    assert(items[j] == item);
                } else {
                    assert(items[items.len() - 1] == item);
                }
            }
            if items.contains(item) && keep(item) {
                let j = choose|j: int| 0 <= j < items.len() && items[j] == item;
                if j < front.len() {
                    assert(front[j] == item);
                    assert(front_kept.contains(item));
                    let i = choose|i: int| 0 <= i < front_kept.len() && front_kept[i] == item;
                    assert(kept[i] == item);
                } else {
                    assert(kept[kept.len() - 1] == item);
                }
            }
        }
    }
}

/// The bytes of the entries that stay are no more than those of all.
proof fn lemma_filter_total(items: Seq<Item>, keep: spec_fn(Item) -> bool)
    ensures
        total_bytes(items.filter(keep)) <= total_bytes(items),
        items.filter(keep).len() <= items.len(),
    decreases items.len(),
{
    reveal(Seq::filter);
    if items.len() > 0 {
        lemma_filter_total(items.drop_last(), keep);
        if keep(items.last()) {
            assert(items.filter(keep).drop_last() =~= items.drop_last().filter(keep));
        }
    }
}

/// The place of the entry that ends first.
fn find_first_ending(entries: &SortedTable<Arc<CachedModels>>) -> (place: usize)
    requires
        entries.items().len() > 0,
    ensures
        place == first_ending(entries.items()),
        place < entries.items().len(),
{
    let ghost items = entries.items();
    let mut best: usize = 0;
    let total = entries.len();
    let mut i: usize = 1;
    assert(items.take(1).len() == 1);
    while i < total
        invariant
            1 <= i <= total,
            total == items.len(),
            items == entries.items(),
            best < i,
            best == first_ending(items.take(i as int)),
        decreases total - i,
    {
        proof {
            assert(items.take(i + 1).drop_last() =~= items.take(i as int));
            assert(items.take(i + 1).last() == items[i as int]);
            assert(items.take(i + 1)[best as int] == items[best as int]);
        }
        if entries.at(i).1.expires < entries.at(best).1.expires {
            best = i;
        }
        i = i + 1;
    }
    assert(items.take(total as int) =~= items);
    best
}

/// The bytes of all entries.
fn sum_bytes(entries: &SortedTable<Arc<CachedModels>>) -> (sum: u128)
    requires
        forall|i: int|
            0 <= i < entries.items().len() ==> (#[trigger] entries.items()[i]).1.bytes <= MAX_BYTES,
    ensures
        sum == total_bytes(entries.items()),
{
    let ghost items = entries.items();
    let mut sum: u128 = 0;
    let total = entries.len();
    let mut i: usize = 0;
    assert(items.take(0) =~= Seq::<Item>::empty());
    while i < total
        invariant
            i <= total,
            total == items.len(),
            items == entries.items(),
            forall|j: int| 0 <= j < items.len() ==> (#[trigger] items[j]).1.bytes <= MAX_BYTES,
            sum == total_bytes(items.take(i as int)),
            sum <= i * MAX_BYTES,
        decreases total - i,
    {
        proof {
            assert(items.take(i + 1).drop_last() =~= items.take(i as int));
            assert(items.take(i + 1).last() == items[i as int]);
        }
        sum = sum + entries.at(i).1.bytes as u128;
        i = i + 1;
    }
    assert(items.take(total as int) =~= items);
    sum
}

/// Makes room for some bytes.
fn reserve(entries: &mut SortedTable<Arc<CachedModels>>, bytes: usize, maximum_entries: usize) -> (result:
    Result<(), ProviderAdminError>)
    requires
        old(entries).well_formed(),
        bytes <= 2 * MAX_BYTES,
        forall|i: int|
            0 <= i < old(entries).items().len() ==> (#[trigger] old(entries).items()[i]).1.bytes
                <= MAX_BYTES,
    ensures
        final(entries).well_formed(),
        match with_room(old(entries).items(), bytes as nat, maximum_entries as nat) {
            Some(left) => result is Ok && final(entries).items() == left,
            None => result == Err::<(), ProviderAdminError>(
                admin(ProviderAdminErrorKind::Unavailable),
            ) && final(entries).items().len() == 0,
        },
        forall|id: Seq<char>| #[trigger]
            final(entries)@.contains_key(id) ==> old(entries)@.contains_key(id) && final(entries)@[id] == old(entries)@[id],
{
    loop
        invariant
            entries.well_formed(),
            bytes <= 2 * MAX_BYTES,
            forall|i: int|
                0 <= i < entries.items().len() ==> (#[trigger] entries.items()[i]).1.bytes
                    <= MAX_BYTES,
            with_room(old(entries).items(), bytes as nat, maximum_entries as nat) == with_room(
                entries.items(),
                bytes as nat,
                maximum_entries as nat,
            ),
            forall|id: Seq<char>| #[trigger]
                entries@.contains_key(id) ==> old(entries)@.contains_key(id) && entries@[id] == old(entries)@[id],
        decreases entries.items().len(),
    {
        proof {
            lemma_total_bound(entries.items());
        }
        let sum = sum_bytes(entries);
        if entries.len() <= maximum_entries && sum + bytes as u128 <= MAX_BYTES as u128 {
            return Ok(());
        }
        if entries.len() == 0 {
            return Err(unavailable());
        }
        let place = find_first_ending(entries);
        let ghost before = entries.items();
        let _ = entries.take(place);
        proof {
            assert forall|i: int| 0 <= i < entries.items().len() implies (
            #[trigger] entries.items()[i]).1.bytes <= MAX_BYTES by {
                let j = if i < place { i } else { i + 1 };
                assert(entries.items()[i] == before[j]);
            }
        }
    }
}

impl CatalogCache {
    /// The cache keeps within its limits: it holds no more entries and bytes than it may, the
    /// directory of all models among them, and keeps each account's models under the account's name.
    pub open spec fn well_formed(&self) -> bool {
        &&& self@.entries.well_formed()
        &&& self@.entries.items().len() <= MAX_ENTRIES
        &&& total_bytes(self@.entries.items()) + directory_bytes(self@.directory) <= MAX_BYTES
        &&& forall|i: int|
            0 <= i < self@.entries.items().len() ==> (#[trigger] self@.entries.items()[i]).1.bytes
                <= MAX_BYTES
        &&& forall|id: Seq<char>| #[trigger]
            self@.entries@.contains_key(id) ==> self@.entries@[id].account.id@ == id
        &&& self@.directory matches Some(directory) ==> directory.models.well_formed()
        &&& self@.refreshes.len() <= MAX_REFRESHES
    }

    /// An empty cache.
    pub fn new() -> (cache: Self)
        ensures
            cache.well_formed(),
            cache@.generation == 0,
            cache@.account_invalidation_token == 0,
            cache@.directory_revision == 0,
            cache@.entries@ == Map::<Seq<char>, Arc<CachedModels>>::empty(),
            cache@.directory is None,
            cache@.refreshes.len() == 0,
    {
        CatalogCache {
            generation: 0,
            account_invalidation_token: 0,
            directory_revision: 0,
            entries: SortedTable::new(),
            directory: None,
            refreshes: Vec::new(),
        }
    }

    /// The directory is kept no longer: the next one is another, and so is what the engine knows.
    pub open spec fn directory_dropped(&self, before: &Self) -> bool {
        &&& self@.directory is None
        &&& self@.directory_revision == after(before@.directory_revision)
        &&& self@.generation == after(before@.generation)
    }

    /// The directory is kept as it was.
    pub open spec fn directory_kept(&self, before: &Self) -> bool {
        &&& self@.directory == before@.directory
        &&& self@.directory_revision == before@.directory_revision
        &&& self@.generation == before@.generation
    }

    fn invalidate_directory(&mut self)
        requires
            old(self).well_formed(),
        ensures
            final(self).well_formed(),
            final(self).directory_dropped(old(self)),
            final(self).entries == old(self).entries,
            final(self).account_invalidation_token == old(self).account_invalidation_token,
            final(self).refreshes == old(self).refreshes,
    {
        self.directory = None;
        self.directory_revision = next(self.directory_revision);
        self.generation = next(self.generation);
    }

    /// The directory has ended.
    pub open spec fn directory_ended(&self, now: u128) -> bool {
        self@.directory matches Some(directory) && directory.expires <= now
    }

    /// What is left of the cache at a point in time.
    pub open spec fn expired(&self, before: &Self, now: u128) -> bool {
        &&& self@.entries.items() == lasting(before@.entries.items(), now)
        &&& forall|id: Seq<char>| #[trigger]
            self@.entries@.contains_key(id) <==> before@.entries@.contains_key(id)
                && before@.entries@[id].expires > now
        &&& forall|id: Seq<char>| #[trigger]
            self@.entries@.contains_key(id) ==> self@.entries@[id] == before@.entries@[id]
        &&& if before.directory_ended(now) {
            self.directory_dropped(before)
        } else {
            self.directory_kept(before)
        }
        &&& self@.account_invalidation_token == before@.account_invalidation_token
        &&& self@.refreshes == before@.refreshes
    }

    fn expire(&mut self, now: u128)
        requires
            old(self).well_formed(),
        ensures
            final(self).well_formed(),
            final(self).expired(old(self), now),
    {
        let ghost lasts = |item: Item| item.1.expires > now;
        proof {
            lemma_filter_total(self.entries.items(), lasts);
            lemma_filter_contents(self.entries.items(), lasts);
        }
        let ghost before = self.entries.items();
        drop_ended(&mut self.entries, now);
        proof {
            assert forall|i: int| 0 <= i < self.entries.items().len() implies (
            #[trigger] self.entries.items()[i]).1.bytes <= MAX_BYTES by {
                assert(self.entries.items().contains(self.entries.items()[i]));
                let j = choose|j: int| 0 <= j < before.len() && before[j] == self.entries.items()[i];
                assert(before[j].1.bytes <= MAX_BYTES);
            }
        }
        let ended = match &self.directory {
            Some(directory) => directory.expires <= now,
            None => false,
        };
        if ended {
            self.invalidate_directory();
        }
    }

    /// The number by which the engine knows what it was last told.
    pub fn generation(&mut self, now: u128) -> (generation: u64)
        requires
            old(self).well_formed(),
        ensures
            final(self).well_formed(),
            final(self).expired(old(self), now),
            generation == final(self)@.generation,
    {
        self.expire(now);
        self.generation
    }

    /// What is read for an account at a point in time, and what is left of the cache then.
    pub open spec fn reads(
        &self,
        before: &Self,
        account: ProviderAccount,
        now: u128,
        cached: Option<Arc<CachedModels>>,
    ) -> bool {
        &&& self.expired(before, now)
        &&& cached == (if before@.entries@.contains_key(account.id@)
            && before@.entries@[account.id@].expires > now && is_same_identity(
            before@.entries@[account.id@].account,
            account,
        ) {
            Some(before@.entries@[account.id@])
        } else {
            None
        })
    }

    /// The models of an account, where they are kept and the account is as it was.
    pub fn read(&mut self, account: &ProviderAccount, now: u128) -> (cached: Option<
        Arc<CachedModels>,
    >)
        requires
            old(self).well_formed(),
        ensures
            final(self).well_formed(),
            final(self).reads(old(self), *account, now, cached),
    {
        self.expire(now);
        match self.entries.get(account.id.as_str()) {
            Some(entry) => if same_identity(&entry.account, account) {
                Some(Arc::clone(entry))
            } else {
                None
            },
            None => None,
        }
    }

    /// What forgetting the models of several accounts does.
    pub open spec fn invalidates(&self, before: &Self, accounts: Seq<String>) -> bool {
        &&& self@.refreshes == before@.refreshes
        &&& if accounts.len() == 0 {
            *self == *before
        } else {
            &&& self.directory_dropped(before)
            &&& self@.account_invalidation_token == after(before@.account_invalidation_token)
            &&& self@.entries@ == without(before@.entries@, accounts)
        }
    }

    /// Forgets the models of several accounts. Models that are being asked for meanwhile are stale.
    pub fn invalidate(&mut self, accounts: &Vec<String>)
        requires
            old(self).well_formed(),
        ensures
            final(self).well_formed(),
            final(self).invalidates(old(self), accounts@),
    {
        if accounts.len() == 0 {
            return;
        }
        assert(accounts@.take(0) =~= Seq::<String>::empty());
        for i in 0..accounts.len()
            invariant
                self.well_formed(),
                self.refreshes == old(self).refreshes,
                self.directory_kept(old(self)),
                self.account_invalidation_token == old(self).account_invalidation_token,
                self.entries@ == without(old(self).entries@, accounts@.take(i as int)),
        {
            proof {
                assert(accounts@.take(i + 1).drop_last() =~= accounts@.take(i as int));
                assert(accounts@.take(i + 1).last() == accounts@[i as int]);
            }
            self.forget(accounts[i].as_str());
        }
        assert(accounts@.take(accounts@.len() as int) =~= accounts@);
        self.account_invalidation_token = next(self.account_invalidation_token);
        self.invalidate_directory();
    }

    /// Forgets the models of an account.
    fn forget(&mut self, id: &str)
        requires
            old(self).well_formed(),
        ensures
            final(self).well_formed(),
            final(self).refreshes == old(self).refreshes,
            final(self).directory_kept(old(self)),
            final(self).account_invalidation_token == old(self).account_invalidation_token,
            final(self).entries@ == old(self).entries@.remove(id@),
            final(self).entries.items() == others(old(self).entries.items(), id@),
    {
        proof {
            self.entries.lemma_items();
        }
        match self.entries.place(id) {
            Some(k) => {
                let ghost before = self.entries.items();
                let _ = self.entries.take(k);
                proof {
                    lemma_total_removed(before, k as int);
                    lemma_others_removed(before, k as int);
                    assert forall|i: int| 0 <= i < self.entries.items().len() implies (
                    #[trigger] self.entries.items()[i]).1.bytes <= MAX_BYTES by {
                        let j = if i < k { i } else { i + 1 };
                        assert(self.entries.items()[i] == before[j]);
                    }
                }
            },
            None => {
                proof {
                    assert(self.entries@.remove(id@) =~= self.entries@);
                    assert forall|i: int| 0 <= i < self.entries.items().len() implies (
                    #[trigger] self.entries.items()[i]).0@ != id@ by {
                        assert(self.entries@.contains_key(self.entries.items()[i].0@));
                    }
                    lemma_others_all(self.entries.items(), id@);
                }
            },
        }
    }

    pub fn account_invalidation_token(&self) -> (token: u64)
        ensures
            token == self@.account_invalidation_token,
    {
        self.account_invalidation_token
    }

    pub fn directory_revision(&self) -> (revision: u64)
        ensures
            revision == self@.directory_revision,
    {
        self.directory_revision
    }

    /// What is read as the directory at a point in time, and what is left of the cache then.
    pub open spec fn reads_directory(
        &self,
        before: &Self,
        now: u128,
        models: Option<Arc<SortedTable<ModelDescriptor>>>,
    ) -> bool {
        &&& self.expired(before, now)
        &&& models == match before@.directory {
            Some(directory) => if directory.expires > now {
                Some(directory.models)
            } else {
                None
            },
            None => None,
        }
    }

    /// The directory of all models, where it is kept.
    pub fn directory(&mut self, now: u128) -> (models: Option<Arc<SortedTable<ModelDescriptor>>>)
        requires
            old(self).well_formed(),
        ensures
            final(self).well_formed(),
            final(self).reads_directory(old(self), now, models),
    {
        self.expire(now);
        match &self.directory {
            Some(directory) => Some(Arc::clone(&directory.models)),
            None => None,
        }
    }

    /// What keeping a directory of all models does.
    pub open spec fn publishes_directory(
        &self,
        before: &Self,
        models: SortedTable<ModelDescriptor>,
        bytes: usize,
        ttl_seconds: u32,
        directory_revision: u64,
        now: u64,
        result: Result<Arc<SortedTable<ModelDescriptor>>, ProviderAdminError>,
    ) -> bool {
        &&& self@.account_invalidation_token == before@.account_invalidation_token
        &&& self@.directory_revision == before@.directory_revision
        &&& self@.refreshes == before@.refreshes
        &&& if bytes > MAX_BYTES {
            &&& *self == *before
            &&& result matches Err(error) && error == admin(ProviderAdminErrorKind::Unavailable)
        } else if before@.directory_revision != directory_revision {
            &&& *self == *before
            &&& result matches Err(error) && error == admin(ProviderAdminErrorKind::Conflict)
        } else {
            &&& result matches Ok(kept) && *kept == models && self@.directory == Some(
                CachedDirectory {
                    models: kept,
                    expires: (now + ttl_seconds * NANOS_PER_SECOND) as u128,
                    bytes,
                },
            )
            &&& self@.generation == after(before@.generation)
            &&& Some(self@.entries.items()) == with_room(
                before@.entries.items(),
                bytes as nat,
                MAX_ENTRIES as nat,
            )
        }
    }

    /// Keeps a directory of all models, which takes some bytes when it is written down. It is not
    /// kept where the directory changed since it was begun.
    pub fn publish_directory(
        &mut self,
        models: SortedTable<ModelDescriptor>,
        bytes: usize,
        ttl_seconds: u32,
        directory_revision: u64,
        now: u64,
    ) -> (result: Result<Arc<SortedTable<ModelDescriptor>>, ProviderAdminError>)
        requires
            old(self).well_formed(),
            models.well_formed(),
        ensures
            final(self).well_formed(),
            final(self).publishes_directory(
                old(self),
                models,
                bytes,
                ttl_seconds,
                directory_revision,
                now,
                result,
            ),
    {
        if bytes > MAX_BYTES {
            return Err(unavailable());
        }
        if self.directory_revision != directory_revision {
            return Err(conflict());
        }
        proof {
            room_is_made_from_the_oldest(self.entries.items(), bytes as nat, MAX_ENTRIES as nat);
        }
        let ghost before = self.entries.items();
        match reserve(&mut self.entries, bytes, MAX_ENTRIES) {
            Ok(()) => {},
            Err(error) => return Err(error),
        }
        proof {
            assert forall|i: int| 0 <= i < self.entries.items().len() implies (
            #[trigger] self.entries.items()[i]).1.bytes <= MAX_BYTES by {
                assert(before.contains(self.entries.items()[i]));
                let j = choose|j: int| 0 <= j < before.len() && before[j] == self.entries.items()[i];
                assert(before[j].1.bytes <= MAX_BYTES);
            }
        }
        let models = Arc::new(models);
        self.directory = Some(
            CachedDirectory {
                models: Arc::clone(&models),
                expires: now as u128 + ttl_seconds as u128 * NANOS_PER_SECOND,
                bytes,
            },
        );
        self.generation = next(self.generation);
        Ok(models)
    }
}

/// The entries of other accounts.
pub open spec fn others(items: Seq<Item>, id: Seq<char>) -> Seq<Item> {
    items.filter(|item: Item| item.0@ != id)
}

/// Where an account has no entry, all entries are those of others.
proof fn lemma_others_all(items: Seq<Item>, id: Seq<char>)
    requires
        forall|i: int| 0 <= i < items.len() ==> (#[trigger] items[i]).0@ != id,
    ensures
        others(items, id) == items,
    decreases items.len(),
{
    reveal(Seq::filter);
    if items.len() > 0 {
        let front = items.drop_last();
        assert forall|i: int| 0 <= i < front.len() implies (#[trigger] front[i]).0@ != id by {
            assert(front[i] == items[i]);
        }
        lemma_others_all(front, id);
        assert(items[items.len() - 1] == items.last());
        assert(others(items, id) =~= items);
    } else {
        assert(others(items, id) =~= items);
    }
}

/// Where an account has one entry, the others are what is left without it.
proof fn lemma_others_removed(items: Seq<Item>, k: int)
    requires
        0 <= k < items.len(),
        forall|i: int, j: int|
            0 <= i < j < items.len() ==> (#[trigger] items[i]).0@ != (#[trigger] items[j]).0@,
    ensures
        others(items, items[k].0@) == items.remove(k),
    decreases items.len(),
{
    reveal(Seq::filter);
    let id = items[k].0@;
    let front = items.drop_last();
    assert forall|i: int, j: int| 0 <= i < j < front.len() implies (#[trigger] front[i]).0@ != (
    #[trigger] front[j]).0@ by {
        assert(items[i].0@ != items[j].0@);
    }
    if k == items.len() - 1 {
        assert forall|i: int| 0 <= i < front.len() implies (#[trigger] front[i]).0@ != id by {
            assert(items[i].0@ != items[k].0@);
        }
        lemma_others_all(front, id);
        assert(others(items, id) =~= items.remove(k));
    } else {
        assert(front[k] == items[k]);
        lemma_others_removed(front, k);
        assert(items[k].0@ != items[items.len() - 1].0@);
        assert(others(items, id) =~= items.remove(k));
    }
}

/// The directory is dropped, if a condition holds.
pub open spec fn after_if(condition: bool, n: u64) -> u64 {
    if condition {
        after(n)
    } else {
        n
    }
}

impl CatalogCache {
    /// What is published is what is kept already.
    pub open spec fn knows(
        &self,
        account: ProviderAccount,
        catalog: AccountModels,
        now: u128,
    ) -> bool {
        &&& self@.entries@.contains_key(account.id@)
        &&& self@.entries@[account.id@].expires > now
        &&& is_same_identity(self@.entries@[account.id@].account, account)
        &&& same_catalog(self@.entries@[account.id@].catalog, catalog)
    }

    /// What keeping the models of an account does.
    pub open spec fn publishes(
        &self,
        before: &Self,
        account: ProviderAccount,
        catalog: AccountModels,
        bytes: usize,
        ttl_seconds: u32,
        account_invalidation_token: u64,
        publication: Publication,
        now: u64,
        observed_at_ms: i64,
        result: Result<Arc<CachedModels>, ProviderAdminError>,
    ) -> bool {
        &&& self@.account_invalidation_token == before@.account_invalidation_token
        &&& self@.refreshes == before@.refreshes
        &&& if bytes > MAX_BYTES {
            &&& *self == *before
            &&& result matches Err(error) && error == admin(ProviderAdminErrorKind::Unavailable)
        } else if before@.account_invalidation_token != account_invalidation_token {
            &&& self.expired(before, now as u128)
            &&& result matches Err(error) && error == admin(ProviderAdminErrorKind::Conflict)
        } else {
            let ended = before.directory_ended(now as u128);
            let news = publication == Publication::Account && !before.knows(
                account,
                catalog,
                now as u128,
            );
            let room = with_room(
                others(lasting(before@.entries.items(), now as u128), account.id@),
                (bytes + directory_bytes(self@.directory)) as nat,
                (MAX_ENTRIES - 1) as nat,
            );
            &&& self@.directory == (if ended || news {
                None
            } else {
                before@.directory
            })
            &&& self@.directory_revision == after_if(
                news,
                after_if(ended, before@.directory_revision),
            )
            &&& self@.generation == after_if(news, after_if(ended, before@.generation))
            &&& match room {
                Some(left) => result matches Ok(entry) && *entry == (CachedModels {
                    account,
                    catalog,
                    observed_at_ms,
                    expires: (now + ttl_seconds * NANOS_PER_SECOND) as u128,
                    bytes,
                }) && self@.entries@.contains_key(account.id@) && self@.entries@[account.id@]
                    == entry && exists|k: int|
                    0 <= k <= left.len() && self@.entries.items() == #[trigger] left.insert(
                        k,
                        (account.id, entry),
                    ),
                None => (result matches Err(error) && error == admin(
                    ProviderAdminErrorKind::Unavailable,
                )) && self@.entries.items().len() == 0,
            }
        }
    }

    /// Keeps the models of an account, which take some bytes when they are written down. They are
    /// not kept where accounts were invalidated since they were asked for. News of a single account
    /// drop the directory of all.
    pub fn publish(
        &mut self,
        account: ProviderAccount,
        catalog: AccountModels,
        bytes: usize,
        ttl_seconds: u32,
        account_invalidation_token: u64,
        publication: Publication,
        now: u64,
        observed_at_ms: i64,
    ) -> (result: Result<Arc<CachedModels>, ProviderAdminError>)
        requires
            old(self).well_formed(),
        ensures
            final(self).well_formed(),
            final(self).publishes(
                old(self),
                account,
                catalog,
                bytes,
                ttl_seconds,
                account_invalidation_token,
                publication,
                now,
                observed_at_ms,
                result,
            ),
    {
        if bytes > MAX_BYTES {
            return Err(unavailable());
        }
        let ghost start = *self;
        self.expire(now as u128);
        if self.account_invalidation_token != account_invalidation_token {
            return Err(conflict());
        }
        let unchanged = match self.entries.get(account.id.as_str()) {
            Some(entry) => same_identity(&entry.account, &account) && equal_catalogs(
                &entry.catalog,
                &catalog,
            ),
            None => false,
        };
        assert(unchanged == start.knows(account, catalog, now as u128));
        let id = account.id.clone();
        self.forget(id.as_str());
        if !unchanged && publication == Publication::Account {
            self.invalidate_directory();
        }
        let directory = match &self.directory {
            Some(directory) => directory.bytes,
            None => 0,
        };
        let ghost before = self.entries.items();
        let ghost before_map = self.entries@;
        proof {
            room_is_made_from_the_oldest(
                before,
                (bytes + directory) as nat,
                (MAX_ENTRIES - 1) as nat,
            );
        }
        match reserve(&mut self.entries, bytes + directory, MAX_ENTRIES - 1) {
            Ok(()) => {},
            Err(error) => {
                proof {
                    self.entries.lemma_items();
                    assert(total_bytes(self.entries.items()) == 0);
                }
                return Err(error);
            },
        }
        let ghost left = self.entries.items();
        proof {
            assert forall|i: int| 0 <= i < left.len() implies (#[trigger] left[i]).1.bytes
                <= MAX_BYTES by {
                assert(before.contains(left[i]));
                let j = choose|j: int| 0 <= j < before.len() && before[j] == left[i];
                assert(before[j].1.bytes <= MAX_BYTES);
            }
        }
        let entry = Arc::new(
            CachedModels {
                account,
                catalog,
                observed_at_ms,
                expires: now as u128 + ttl_seconds as u128 * NANOS_PER_SECOND,
                bytes,
            },
        );
        self.entries.insert(id, Arc::clone(&entry));
        proof {
            let k = choose|k: int|
                0 <= k <= left.len() && self.entries.items() == #[trigger] left.insert(
                    k,
                    (id, entry),
                );
            lemma_total_inserted(left, k, (id, entry));
            assert forall|i: int| 0 <= i < self.entries.items().len() implies (
            #[trigger] self.entries.items()[i]).1.bytes <= MAX_BYTES by {
                if i != k {
                    let j = if i < k { i } else { i - 1 };
                    assert(self.entries.items()[i] == left[j]);
                }
            }
        }
        Ok(entry)
    }

    /// The ticket under which an account is being asked for its models.
    pub open spec fn ticket_of(
        refreshes: Seq<RefreshLock>,
        account_id: Seq<char>,
        revision: u64,
    ) -> Option<u64>
        decreases refreshes.len(),
    {
        if refreshes.len() == 0 {
            None
        } else if refreshes[0].account_id@ == account_id && refreshes[0].revision == revision {
            Some(refreshes[0].ticket)
        } else {
            CatalogCache::ticket_of(refreshes.skip(1), account_id, revision)
        }
    }

    /// The tickets that are still held.
    pub open spec fn held(refreshes: Seq<RefreshLock>, tickets: Seq<u64>) -> Seq<RefreshLock> {
        refreshes.filter(|lock: RefreshLock| tickets.contains(lock.ticket))
    }

    /// What asking for the ticket of an account does.
    pub open spec fn locks(
        &self,
        before: &Self,
        account: ProviderAccount,
        tickets: Seq<u64>,
        new: u64,
        result: Result<u64, ProviderAdminError>,
    ) -> bool {
        let held = CatalogCache::held(before@.refreshes, tickets);
        &&& self@.entries == before@.entries
        &&& self.directory_kept(before)
        &&& self@.account_invalidation_token == before@.account_invalidation_token
        &&& match CatalogCache::ticket_of(held, account.id@, account.revision) {
            Some(ticket) => result == Ok::<u64, ProviderAdminError>(ticket) && self@.refreshes
                == held,
            None => if held.len() >= MAX_REFRESHES {
                result == Err::<u64, ProviderAdminError>(
                    admin(ProviderAdminErrorKind::Unavailable),
                ) && self@.refreshes == held
            } else {
                result == Ok::<u64, ProviderAdminError>(new) && self@.refreshes == held.push(
                    RefreshLock {
                        account_id: account.id,
                        revision: account.revision,
                        ticket: new,
                    },
                )
            },
        }
    }

    /// The ticket under which an account is asked for its models: the one that is held already, so
    /// that one question serves all who ask, or the given new one. `tickets` are those still held.
    pub fn refresh_lock(&mut self, account: &ProviderAccount, tickets: &Vec<u64>, new: u64) -> (result:
        Result<u64, ProviderAdminError>)
        requires
            old(self).well_formed(),
        ensures
            final(self).well_formed(),
            final(self).locks(old(self), *account, tickets@, new, result),
    {
        let ghost before = self.refreshes@;
        let ghost is_held = |lock: RefreshLock| tickets@.contains(lock.ticket);
        let mut held: Vec<RefreshLock> = Vec::new();
        assert(before.take(0).filter(is_held) =~= Seq::<RefreshLock>::empty()) by {
            reveal(Seq::filter);
        }
        for i in 0..self.refreshes.len()
            invariant
                before == self.refreshes@,
                is_held == |lock: RefreshLock| tickets@.contains(lock.ticket),
                held@ == before.take(i as int).filter(is_held),
        {
            proof {
                assert(before.take(i + 1).drop_last() =~= before.take(i as int));
                assert(before.take(i + 1).last() == before[i as int]);
                reveal(Seq::filter);
            }
            let lock = &self.refreshes[i];
            if holds_ticket(tickets, lock.ticket) {
                held.push(
                    RefreshLock {
                        account_id: lock.account_id.clone(),
                        revision: lock.revision,
                        ticket: lock.ticket,
                    },
                );
            }
        }
        proof {
            assert(before.take(before.len() as int) =~= before);
            before.lemma_filter_len(is_held);
        }
        let found = find_ticket(&held, account.id.as_str(), account.revision);
        let full = held.len() >= MAX_REFRESHES;
        self.refreshes = held;
        match found {
            Some(ticket) => Ok(ticket),
            None => {
                if full {
                    return Err(unavailable());
                }
                self.refreshes.push(
                    RefreshLock {
                        account_id: account.id.clone(),
                        revision: account.revision,
                        ticket: new,
                    },
                );
                Ok(new)
            },
        }
    }
}

fn holds_ticket(tickets: &Vec<u64>, ticket: u64) -> (r: bool)
    ensures
        r == tickets@.contains(ticket),
{
    for i in 0..tickets.len()
        invariant
            forall|j: int| 0 <= j < i ==> tickets@[j] != ticket,
    {
        if tickets[i] == ticket {
            return true;
        }
    }
    false
}

fn find_ticket(refreshes: &Vec<RefreshLock>, account_id: &str, revision: u64) -> (ticket: Option<u64>)
    ensures
        ticket == CatalogCache::ticket_of(refreshes@, account_id@, revision),
{
    assert(refreshes@.skip(0) =~= refreshes@);
    for i in 0..refreshes.len()
        invariant
            CatalogCache::ticket_of(refreshes@, account_id@, revision) == CatalogCache::ticket_of(
                refreshes@.skip(i as int),
                account_id@,
                revision,
            ),
    {
        proof {
            let rest = refreshes@.skip(i as int);
            assert(rest[0] == refreshes@[i as int]);
            assert(rest.skip(1) =~= refreshes@.skip(i + 1));
        }
        if same(refreshes[i].account_id.as_str(), account_id) && refreshes[i].revision == revision {
            return Some(refreshes[i].ticket);
        }
    }
    None
}

/// Models that were asked for before an invalidation are not kept after it: the token that they
/// were asked for under is another.
pub proof fn invalidation_makes_stale(token: u64)
    requires
        token < u64::MAX,
    ensures
        after(token) != token,
{
}

/// A table without the entries of several names.
pub open spec fn without(
    entries: Map<Seq<char>, Arc<CachedModels>>,
    ids: Seq<String>,
) -> Map<Seq<char>, Arc<CachedModels>>
    decreases ids.len(),
{
    if ids.len() == 0 {
        entries
    } else {
        without(entries, ids.drop_last()).remove(ids.last()@)
    }
}

/// What is kept for an account is read for it, as it was kept, until as many seconds have gone by as
/// it was kept for, and not from then on; for the account as it is otherwise, nothing is read.
pub proof fn published_is_read(
    before: CatalogCache,
    kept: CatalogCache,
    later: CatalogCache,
    account: ProviderAccount,
    catalog: AccountModels,
    bytes: usize,
    ttl_seconds: u32,
    token: u64,
    publication: Publication,
    now: u64,
    observed_at_ms: i64,
    entry: Arc<CachedModels>,
    reader: ProviderAccount,
    then: u128,
    cached: Option<Arc<CachedModels>>,
)
    requires
        kept.publishes(
            &before,
            account,
            catalog,
            bytes,
            ttl_seconds,
            token,
            publication,
            now,
            observed_at_ms,
            Ok(entry),
        ),
        later.reads(&kept, reader, then, cached),
        reader.id@ == account.id@,
    ensures
        entry.account == account,
        entry.catalog == catalog,
        entry.observed_at_ms == observed_at_ms,
        entry.bytes == bytes,
        entry.expires == now + ttl_seconds * 1_000_000_000,
        cached == (if then < now + ttl_seconds * 1_000_000_000 && is_same_identity(account, reader) {
            Some(entry)
        } else {
            None
        }),
        later@.entries@.contains_key(account.id@) == (then < now + ttl_seconds * 1_000_000_000),
{
    assert(ttl_seconds * 1_000_000_000 <= 0xffff_ffff * 1_000_000_000) by (nonlinear_arith)
        requires
            ttl_seconds <= 0xffff_ffff,
    ;
    assert(entry.expires == (now + ttl_seconds * NANOS_PER_SECOND) as u128);
}

/// Models are kept only as of the last invalidation, and only if they are not too large for the
/// whole cache; then they always are.
pub proof fn published_when_current(
    before: CatalogCache,
    kept: CatalogCache,
    account: ProviderAccount,
    catalog: AccountModels,
    bytes: usize,
    ttl_seconds: u32,
    token: u64,
    publication: Publication,
    now: u64,
    observed_at_ms: i64,
    result: Result<Arc<CachedModels>, ProviderAdminError>,
)
    requires
        kept.publishes(
            &before,
            account,
            catalog,
            bytes,
            ttl_seconds,
            token,
            publication,
            now,
            observed_at_ms,
            result,
        ),
    ensures
        result is Ok ==> bytes <= 8_388_608 && token == before@.account_invalidation_token,
        bytes <= 8_388_608 && token != before@.account_invalidation_token ==> (result matches Err(error)
            && error.kind == ProviderAdminErrorKind::Conflict),
        bytes > 8_388_608 ==> (result matches Err(error) && error.kind
            == ProviderAdminErrorKind::Unavailable) && kept == before,
        bytes + directory_bytes(kept@.directory) <= 8_388_608 && token
            == before@.account_invalidation_token ==> result is Ok,
        kept@.account_invalidation_token == before@.account_invalidation_token,
        kept@.refreshes == before@.refreshes,
{
    let items = others(lasting(before@.entries.items(), now as u128), account.id@);
    room_is_made_from_the_oldest(
        items,
        (bytes + directory_bytes(kept@.directory)) as nat,
        (MAX_ENTRIES - 1) as nat,
    );
}

/// What becomes known of a single account outdates the directory of all models, and a directory that
/// was begun before is not kept; what a directory itself asks for leaves it alone, and so does what
/// is known already.
pub proof fn news_outdate_the_directory(
    before: CatalogCache,
    kept: CatalogCache,
    account: ProviderAccount,
    catalog: AccountModels,
    bytes: usize,
    ttl_seconds: u32,
    token: u64,
    publication: Publication,
    now: u64,
    observed_at_ms: i64,
    entry: Arc<CachedModels>,
)
    requires
        kept.publishes(
            &before,
            account,
            catalog,
            bytes,
            ttl_seconds,
            token,
            publication,
            now,
            observed_at_ms,
            Ok(entry),
        ),
        before@.directory matches Some(directory) ==> directory.expires > now,
    ensures
        publication == Publication::Directory ==> kept@.directory == before@.directory
            && kept@.directory_revision == before@.directory_revision && kept@.generation
            == before@.generation,
        publication == Publication::Account && !before@.entries@.contains_key(account.id@)
            ==> kept@.directory is None && (before@.directory_revision < u64::MAX
            ==> kept@.directory_revision == before@.directory_revision + 1) && (before@.generation
            < u64::MAX ==> kept@.generation == before@.generation + 1),
        publication == Publication::Account && before@.entries@.contains_key(account.id@)
            && before@.entries@[account.id@].expires > now
            && before@.entries@[account.id@].account == account
            && before@.entries@[account.id@].catalog == catalog ==> kept@.directory
            == before@.directory && kept@.directory_revision == before@.directory_revision
            && kept@.generation == before@.generation,
        publication == Publication::Account && before@.entries@.contains_key(account.id@) && (
        before@.entries@[account.id@].account.revision != account.revision
            || before@.entries@[account.id@].catalog.exhaustive != catalog.exhaustive
            || before@.entries@[account.id@].catalog.models@.len() != catalog.models@.len())
            ==> kept@.directory is None,
{
    assert(model_views(catalog.models@).len() == catalog.models@.len());
    assert(model_views(before@.entries@[account.id@].catalog.models@).len()
        == before@.entries@[account.id@].catalog.models@.len());
}

/// What was invalidated is not read any more, and everything else is read as before. What is asked
/// for under the old token is not kept from then on.
pub proof fn invalidated_is_not_read(
    before: CatalogCache,
    after_it: CatalogCache,
    accounts: Seq<String>,
    later: CatalogCache,
    reader: ProviderAccount,
    then: u128,
    cached: Option<Arc<CachedModels>>,
)
    requires
        after_it.invalidates(&before, accounts),
        later.reads(&after_it, reader, then, cached),
    ensures
        (exists|i: int| 0 <= i < accounts.len() && (#[trigger] accounts[i])@ == reader.id@)
            ==> cached is None,
        (forall|i: int| 0 <= i < accounts.len() ==> (#[trigger] accounts[i])@ != reader.id@) ==> (
        cached is Some <==> before@.entries@.contains_key(reader.id@)
            && before@.entries@[reader.id@].expires > then && is_same_identity(
            before@.entries@[reader.id@].account,
            reader,
        )) && (cached matches Some(entry) ==> entry == before@.entries@[reader.id@]),
        accounts.len() == 0 ==> after_it == before,
        accounts.len() > 0 ==> after_it@.directory is None,
        accounts.len() > 0 && before@.account_invalidation_token < u64::MAX
            ==> after_it@.account_invalidation_token == before@.account_invalidation_token + 1,
        accounts.len() > 0 && before@.directory_revision < u64::MAX ==> after_it@.directory_revision
            == before@.directory_revision + 1,
        accounts.len() > 0 && before@.generation < u64::MAX ==> after_it@.generation
            == before@.generation + 1,
        after_it@.refreshes == before@.refreshes,
{
    without_by_name(before@.entries@, accounts, reader.id@);
}

/// A table without some names has every other name, under which the same stands.
pub proof fn without_by_name(
    entries: Map<Seq<char>, Arc<CachedModels>>,
    ids: Seq<String>,
    name: Seq<char>,
)
    ensures
        without(entries, ids).contains_key(name) <==> entries.contains_key(name) && forall|i: int|
            0 <= i < ids.len() ==> (#[trigger] ids[i])@ != name,
        without(entries, ids).contains_key(name) ==> without(entries, ids)[name] == entries[name],
    decreases ids.len(),
{
    if ids.len() > 0 {
        without_by_name(entries, ids.drop_last(), name);
        let front = ids.drop_last();
        assert(forall|i: int| 0 <= i < front.len() ==> #[trigger] front[i] == ids[i]);
        if forall|i: int| 0 <= i < front.len() ==> (#[trigger] front[i])@ != name {
            assert forall|i: int| 0 <= i < ids.len() && ids.last()@ != name implies (
            #[trigger] ids[i])@ != name by {
                if i < front.len() {
                    assert(front[i] == ids[i]);
                }
            }
        } else {
            let k = choose|k: int| 0 <= k < front.len() && (#[trigger] front[k])@ == name;
            assert(ids[k]@ == name);
        }
        assert(ids[ids.len() - 1] == ids.last());
    }
}

/// A directory that was kept is read, as it was kept, until as many seconds have gone by as it was
/// kept for, and not from then on.
pub proof fn published_directory_is_read(
    before: CatalogCache,
    kept: CatalogCache,
    models: SortedTable<ModelDescriptor>,
    bytes: usize,
    ttl_seconds: u32,
    directory_revision: u64,
    now: u64,
    result: Result<Arc<SortedTable<ModelDescriptor>>, ProviderAdminError>,
    later: CatalogCache,
    then: u128,
    read: Option<Arc<SortedTable<ModelDescriptor>>>,
)
    requires
        kept.publishes_directory(
            &before,
            models,
            bytes,
            ttl_seconds,
            directory_revision,
            now,
            result,
        ),
        later.reads_directory(&kept, then, read),
    ensures
        result is Ok <==> bytes <= 8_388_608 && directory_revision == before@.directory_revision,
        result matches Err(error) ==> kept == before && error.kind == (if bytes > 8_388_608 {
            ProviderAdminErrorKind::Unavailable
        } else {
            ProviderAdminErrorKind::Conflict
        }),
        result matches Ok(told) ==> {
            &&& *told == models
            &&& read == (if then < now + ttl_seconds * 1_000_000_000 {
                Some(told)
            } else {
                None
            })
            &&& (then < now + ttl_seconds * 1_000_000_000 ==> later@.directory_revision
                == directory_revision && later@.generation == kept@.generation)
            &&& (then >= now + ttl_seconds * 1_000_000_000 && directory_revision < u64::MAX
                ==> later@.directory_revision == directory_revision + 1)
            &&& (before@.generation < u64::MAX ==> kept@.generation == before@.generation + 1)
        },
{
    assert(ttl_seconds * 1_000_000_000 <= 0xffff_ffff * 1_000_000_000) by (nonlinear_arith)
        requires
            ttl_seconds <= 0xffff_ffff,
    ;
}

/// Whoever asks about an account while somebody else does gets the ticket that is held already; what
/// one was given is found again as long as it is held.
pub proof fn one_question_serves_all(
    before: CatalogCache,
    locked: CatalogCache,
    account: ProviderAccount,
    tickets: Seq<u64>,
    new: u64,
    ticket: u64,
    again: CatalogCache,
    other: ProviderAccount,
    tickets_then: Seq<u64>,
    new_then: u64,
    result: Result<u64, ProviderAdminError>,
)
    requires
        locked.locks(&before, account, tickets, new, Ok(ticket)),
        again.locks(&locked, other, tickets_then, new_then, result),
        other.id@ == account.id@,
        other.revision == account.revision,
        forall|i: int|
            0 <= i < before@.refreshes.len() ==> tickets_then.contains(
                (#[trigger] before@.refreshes[i]).ticket,
            ),
        tickets_then.contains(new),
    ensures
        result == Ok::<u64, ProviderAdminError>(ticket),
        again@.refreshes == locked@.refreshes,
{
    let held = CatalogCache::held(before@.refreshes, tickets);
    held_tickets(before@.refreshes, tickets);
    assert forall|i: int| 0 <= i < locked@.refreshes.len() implies tickets_then.contains(
        (#[trigger] locked@.refreshes[i]).ticket,
    ) by {
        if i < held.len() {
            assert(locked@.refreshes[i] == held[i]);
            assert(held.contains(held[i]));
            let k = choose|k: int| 0 <= k < before@.refreshes.len() && before@.refreshes[k] == held[i];
            assert(tickets_then.contains(before@.refreshes[k].ticket));
        }
    }
    lemma_all_held(locked@.refreshes, tickets_then);
    if CatalogCache::ticket_of(held, account.id@, account.revision) is None {
        lemma_ticket_of_last(
            held,
            RefreshLock { account_id: account.id, revision: account.revision, ticket: new },
        );
    }
}

/// Where all tickets are held, all stay.
proof fn lemma_all_held(refreshes: Seq<RefreshLock>, tickets: Seq<u64>)
    requires
        forall|i: int|
            0 <= i < refreshes.len() ==> tickets.contains((#[trigger] refreshes[i]).ticket),
    ensures
        CatalogCache::held(refreshes, tickets) == refreshes,
    decreases refreshes.len(),
{
    reveal(Seq::filter);
    if refreshes.len() > 0 {
        let front = refreshes.drop_last();
        assert forall|i: int| 0 <= i < front.len() implies tickets.contains(
            (#[trigger] front[i]).ticket,
        ) by {
            assert(front[i] == refreshes[i]);
        }
        lemma_all_held(front, tickets);
        assert(tickets.contains(refreshes[refreshes.len() - 1].ticket));
        assert(front.push(refreshes.last()) =~= refreshes);
    } else {
        assert(CatalogCache::held(refreshes, tickets) =~= refreshes);
    }
}

/// Where an account is not asked yet, the ticket that is added for it is its ticket.
proof fn lemma_ticket_of_last(refreshes: Seq<RefreshLock>, added: RefreshLock)
    requires
        CatalogCache::ticket_of(refreshes, added.account_id@, added.revision) is None,
    ensures
        CatalogCache::ticket_of(refreshes.push(added), added.account_id@, added.revision) == Some(
            added.ticket,
        ),
    decreases refreshes.len(),
{
    let all = refreshes.push(added);
    if refreshes.len() > 0 {
        lemma_ticket_of_last(refreshes.skip(1), added);
        assert(all.skip(1) =~= refreshes.skip(1).push(added));
        assert(all[0] == refreshes[0]);
    } else {
        assert(all[0] == added);
    }
}

/// The tickets that stay are those that are held.
pub proof fn held_tickets(refreshes: Seq<RefreshLock>, tickets: Seq<u64>)
    ensures
        forall|lock: RefreshLock| #[trigger]
            CatalogCache::held(refreshes, tickets).contains(lock) <==> refreshes.contains(lock)
                && tickets.contains(lock.ticket),
{
    lemma_filter_contents(refreshes, |lock: RefreshLock| tickets.contains(lock.ticket));
}

/// The ticket of an account is that of the first question about the account as it is, and there is
/// one where there is such a question.
pub proof fn ticket_of_the_account(refreshes: Seq<RefreshLock>, account_id: Seq<char>, revision: u64)
    ensures
        match CatalogCache::ticket_of(refreshes, account_id, revision) {
            Some(ticket) => exists|i: int|
                0 <= i < refreshes.len() && (#[trigger] refreshes[i]).ticket == ticket
                    && refreshes[i].account_id@ == account_id && refreshes[i].revision == revision,
            None => forall|i: int|
                0 <= i < refreshes.len() ==> !((#[trigger] refreshes[i]).account_id@ == account_id
                    && refreshes[i].revision == revision),
        },
    decreases refreshes.len(),
{
    if refreshes.len() > 0 {
        let rest = refreshes.skip(1);
        ticket_of_the_account(rest, account_id, revision);
        assert(forall|i: int| 0 <= i < rest.len() ==> #[trigger] rest[i] == refreshes[i + 1]);
        if !(refreshes[0].account_id@ == account_id && refreshes[0].revision == revision) {
            match CatalogCache::ticket_of(rest, account_id, revision) {
                Some(ticket) => {
                    let k = choose|k: int|
                        0 <= k < rest.len() && (#[trigger] rest[k]).ticket == ticket
                            && rest[k].account_id@ == account_id && rest[k].revision == revision;
                    assert(refreshes[k + 1].ticket == ticket);
                },
                None => {
                    assert forall|i: int| 0 <= i < refreshes.len() implies !((
                    #[trigger] refreshes[i]).account_id@ == account_id && refreshes[i].revision
                        == revision) by {
                        if i > 0 {
                            assert(rest[i - 1] == refreshes[i]);
                        }
                    }
                },
            }
        }
    }
}

/// No account is asked under a new ticket while sixty-four are.
pub proof fn questions_are_limited(
    before: CatalogCache,
    locked: CatalogCache,
    account: ProviderAccount,
    tickets: Seq<u64>,
    new: u64,
    result: Result<u64, ProviderAdminError>,
)
    requires
        locked.locks(&before, account, tickets, new, result),
        forall|i: int|
            0 <= i < before@.refreshes.len() ==> tickets.contains(
                (#[trigger] before@.refreshes[i]).ticket,
            ) && !(before@.refreshes[i].account_id@ == account.id@
                && before@.refreshes[i].revision == account.revision),
    ensures
        before@.refreshes.len() < 64 ==> result == Ok::<u64, ProviderAdminError>(new)
            && locked@.refreshes.len() == before@.refreshes.len() + 1
            && locked@.refreshes.last().account_id == account.id
            && locked@.refreshes.last().revision == account.revision
            && locked@.refreshes.last().ticket == new,
        before@.refreshes.len() >= 64 ==> (result matches Err(error) && error.kind
            == ProviderAdminErrorKind::Unavailable) && locked@.refreshes == before@.refreshes,
        locked@.entries == before@.entries,
        locked@.directory == before@.directory,
{
    lemma_all_held(before@.refreshes, tickets);
    ticket_of_the_account(before@.refreshes, account.id@, account.revision);
}

/// The bytes of entries add up, and a single entry has its own.
pub proof fn bytes_add_up(a: Seq<Item>, b: Seq<Item>)
    ensures
        total_bytes(a + b) == total_bytes(a) + total_bytes(b),
        a.len() == 1 ==> total_bytes(a) == a[0].1.bytes,
    decreases b.len(),
{
    reveal_with_fuel(total_bytes, 2);
    if b.len() == 0 {
        assert(a + b =~= a);
    } else {
        bytes_add_up(a, b.drop_last());
        assert((a + b).drop_last() =~= a + b.drop_last());
        assert((a + b).last() == b.last());
    }
    if a.len() == 1 {
        assert(a.last() == a[0]);
    }
}

/// Nothing is forgotten that need not be: where there is room, all stays, and where there is none, the
/// entry goes that ends before all others.
pub proof fn forgotten_only_for_room(
    items: Seq<Item>,
    bytes: nat,
    maximum_entries: nat,
    first: int,
)
    requires
        0 <= first < items.len(),
        forall|i: int|
            0 <= i < items.len() && i != first ==> items[first].1.expires < (
            #[trigger] items[i]).1.expires,
    ensures
        items.len() <= maximum_entries && total_bytes(items) + bytes <= 8_388_608 ==> with_room(
            items,
            bytes,
            maximum_entries,
        ) == Some(items),
        items.len() > maximum_entries || total_bytes(items) + bytes > 8_388_608 ==> with_room(
            items,
            bytes,
            maximum_entries,
        ) == with_room(items.remove(first), bytes, maximum_entries),
{
    lemma_first_ending(items);
    if first_ending(items) != first {
        assert(items[first].1.expires < items[first_ending(items)].1.expires);
    }
}

/// Of the entries, those last whose end is to come, and those are others whose name is another.
pub proof fn lasting_and_others(items: Seq<Item>, now: u128, id: Seq<char>, item: Item)
    ensures
        lasting(items, now).contains(item) <==> items.contains(item) && now < item.1.expires,
        others(items, id).contains(item) <==> items.contains(item) && item.0@ != id,
    decreases items.len(),
{
    lemma_filter_contents(items, |item: Item| item.1.expires > now);
    reveal(Seq::filter);
    let kept = others(items, id);
    if items.len() > 0 {
        let front = items.drop_last();
        let front_kept = others(front, id);
        lasting_and_others(front, now, id, item);
        if kept.contains(item) {
            let i = choose|i: int| 0 <= i < kept.len() && kept[i] == item;
            if i < front_kept.len() {
                assert(front_kept[i] == item);
                assert(front_kept.contains(item));
                let j = choose|j: int| 0 <= j < front.len() && front[j] == item;
                assert(items[j] == item);
            } else {
                assert(items[items.len() - 1] == item);
            }
        }
        if items.contains(item) && item.0@ != id {
            let j = choose|j: int| 0 <= j < items.len() && items[j] == item;
            if j < front.len() {
                assert(front[j] == item);
                assert(front_kept.contains(item));
                let i = choose|i: int| 0 <= i < front_kept.len() && front_kept[i] == item;
                assert(kept[i] == item);
            } else {
                assert(kept[kept.len() - 1] == item);
            }
        }
    }
}

/// What a cache keeps is limited: at most 256 accounts, and 8 MiB with the directory; at most 64
/// accounts are asked at a time. What it keeps under a name is that of the account of the name.
pub proof fn cache_is_limited(cache: CatalogCache, id: Seq<char>)
    requires
        cache.well_formed(),
    ensures
        cache@.entries.items().len() <= 256,
        total_bytes(cache@.entries.items()) <= 8_388_608,
        cache@.directory matches Some(directory) ==> total_bytes(cache@.entries.items())
            + directory.bytes <= 8_388_608,
        cache@.refreshes.len() <= 64,
        cache@.entries@.contains_key(id) ==> cache@.entries@[id].account.id@ == id,
{
}

/// Time alone changes nothing that has not ended.
pub proof fn unchanged_until_it_ends(before: CatalogCache, later: CatalogCache, now: u128)
    requires
        later.expired(&before, now),
    ensures
        before@.directory is None ==> later@.directory is None && later@.generation
            == before@.generation && later@.directory_revision == before@.directory_revision,
        before@.directory matches Some(directory) ==> (directory.expires > now ==> later@.directory
            == before@.directory && later@.generation == before@.generation
            && later@.directory_revision == before@.directory_revision),
        before@.directory matches Some(directory) ==> (directory.expires <= now ==> later@.directory
            is None && (before@.generation < u64::MAX ==> later@.generation == before@.generation
            + 1)),
        later@.account_invalidation_token == before@.account_invalidation_token,
        later@.refreshes == before@.refreshes,
        forall|id: Seq<char>| #[trigger]
            later@.entries@.contains_key(id) <==> before@.entries@.contains_key(id) && now
                < before@.entries@[id].expires,
        forall|id: Seq<char>| #[trigger]
            later@.entries@.contains_key(id) ==> later@.entries@[id] == before@.entries@[id],
{
}

} // verus!
