//! The plugin processes that conversations still need. A process that is replaced is kept for a
//! while, so that a conversation that only it can read goes on; how many are kept is limited, and
//! the oldest go first.

use std::sync::Arc;
use vstd::prelude::*;

use crate::counting::{count, is_order, lemma_bounded, lemma_count};
use crate::fault::{AdminError, AdminErrorKind, AdminReason};
use crate::sorted::{is_flagged, lemma_picked, picked, SortedTable};
use crate::text::{
    before, holds, lemma_bytes_transitive, lemma_text_order, same, text_less, texts,
};
use vstd::utf8::encode_utf8;

verus! {

/// How many processes are kept, and for how long. Neither limit is zero.
#[derive(Clone, Copy, Debug, PartialEq, Eq, Structural)]
pub struct ContinuationDrainConfig {
    pub maximum_per_instance: usize,
    pub maximum_generations: usize,
    pub retention_nanos: u64,
}

/// A process, by what keeps it.
pub enum DrainEntry<P> {
    /// The process serves the present generation, which keeps it.
    Active { superseded: bool },
    /// The process was replaced, and is kept here until a deadline.
    Retired { provider: Arc<P>, instance_id: String, deadline: u128, sequence: u64 },
}

/// The processes that conversations may need, by the name under which they wrote checkpoints.
pub struct ContinuationDrain<P> {
    config: ContinuationDrainConfig,
    entries: SortedTable<DrainEntry<P>>,
    next_sequence: u64,
    reaper_running: bool,
}

/// An entry of the drain.
pub type Item<P> = (String, DrainEntry<P>);

/// The processes that were replaced among some entries, in order.
pub open spec fn retired_providers<P>(items: Seq<Item<P>>) -> Seq<Arc<P>>
    decreases items.len(),
{
    if items.len() == 0 {
        Seq::empty()
    } else {
        match items.last().1 {
            DrainEntry::Retired { provider, .. } => retired_providers(items.drop_last()).push(
                provider,
            ),
            DrainEntry::Active { .. } => retired_providers(items.drop_last()),
        }
    }
}

fn collect_retired<P>(items: Vec<Item<P>>) -> (providers: Vec<Arc<P>>)
    ensures
        providers@ == retired_providers(items@),
{
    let mut providers: Vec<Arc<P>> = Vec::new();
    let mut rest = items;
    let total = rest.len();
    let mut i: usize = 0;
    assert(items@.take(0) =~= Seq::<Item<P>>::empty());
    while i < total
        invariant
            i <= total,
            total == items@.len(),
            rest@ == items@.skip(i as int),
            providers@ == retired_providers(items@.take(i as int)),
        decreases total - i,
    {
        let item = rest.remove(0);
        proof {
            assert(item == items@[i as int]);
            assert(rest@ =~= items@.skip(i + 1));
            assert(items@.take(i + 1).drop_last() =~= items@.take(i as int));
            assert(items@.take(i + 1).last() == item);
        }
        match item.1 {
            DrainEntry::Retired { provider, .. } => providers.push(provider),
            DrainEntry::Active { .. } => {},
        }
        i = i + 1;
    }
    assert(items@.take(total as int) =~= items@);
    providers
}

/// An entry that stands: the present generation keeps its process, or its deadline is to come.
pub open spec fn stands<P>(
    name: Seq<char>,
    entry: DrainEntry<P>,
    alive: Seq<String>,
    now: u128,
) -> bool {
    match entry {
        DrainEntry::Active { .. } => texts(alive).contains(name),
        DrainEntry::Retired { deadline, .. } => deadline > now,
    }
}

/// An entry that stands whatever the time: only the present generation can give it up.
pub open spec fn is_held<P>(name: Seq<char>, entry: DrainEntry<P>, alive: Seq<String>) -> bool {
    entry is Active ==> texts(alive).contains(name)
}

/// The entry at a place stands.
pub open spec fn stands_at<P>(items: Seq<Item<P>>, i: int, alive: Seq<String>, now: u128) -> bool {
    stands(items[i].0@, items[i].1, alive, now)
}

/// The entry at a place is held.
pub open spec fn is_held_at<P>(items: Seq<Item<P>>, i: int, alive: Seq<String>) -> bool {
    is_held(items[i].0@, items[i].1, alive)
}

/// For each entry, whether it has a property.
pub open spec fn flags_are<P>(
    items: Seq<Item<P>>,
    flags: Seq<bool>,
    property: spec_fn(int) -> bool,
) -> bool {
    flags.len() == items.len() && forall|i: int|
        0 <= i < items.len() ==> #[trigger] flags[i] == property(i)
}

/// A process that was replaced later than another; of two at once, the one with the later name.
pub open spec fn is_newer<P>(items: Seq<Item<P>>, i: int, j: int) -> bool {
    match (items[i].1, items[j].1) {
        (DrainEntry::Retired { sequence: a, .. }, DrainEntry::Retired { sequence: b, .. }) => b > a
            || b == a && text_less(items[i].0@, items[j].0@),
        _ => false,
    }
}

/// The number of a process that was replaced is below the next one, as long as numbers go up.
pub open spec fn is_numbered<P>(entry: DrainEntry<P>, next_sequence: u64) -> bool {
    entry matches DrainEntry::Retired { sequence, .. } ==> (sequence < next_sequence
        || next_sequence == u64::MAX)
}

/// The entry of a process of an instance that was replaced.
pub open spec fn is_of_instance<P>(items: Seq<Item<P>>, i: int, instance: Seq<char>) -> bool {
    items[i].1 matches DrainEntry::Retired { instance_id, .. } && instance_id@ == instance
}

/// The instance of a process that was replaced.
pub open spec fn instance_of<P>(item: Item<P>) -> Seq<char> {
    match item.1 {
        DrainEntry::Retired { instance_id, .. } => instance_id@,
        DrainEntry::Active { .. } => Seq::empty(),
    }
}

/// A process that is among the newest of its instance.
pub open spec fn is_within_instance<P>(
    items: Seq<Item<P>>,
    i: int,
    maximum_per_instance: nat,
) -> bool {
    items[i].1 is Retired && count(
        items.len() as int,
        |j: int| is_of_instance(items, j, instance_of(items[i])) && is_newer(items, i, j),
    ) < maximum_per_instance
}

/// A process that is among the newest of its instance, and among the newest of all those.
pub open spec fn is_within<P>(items: Seq<Item<P>>, i: int, config: ContinuationDrainConfig) -> bool {
    is_within_instance(items, i, config.maximum_per_instance as nat) && count(
        items.len() as int,
        |j: int|
            is_within_instance(items, j, config.maximum_per_instance as nat) && is_newer(
                items,
                i,
                j,
            ),
    ) < config.maximum_generations
}

/// An entry that stays when the oldest processes go.
pub open spec fn stays<P>(items: Seq<Item<P>>, i: int, config: ContinuationDrainConfig) -> bool {
    items[i].1 is Active || is_within(items, i, config)
}

fn newer<P>(a: &Item<P>, b: &Item<P>) -> (r: bool)
    ensures
        r == is_newer(seq![*a, *b], 0, 1),
{
    match (&a.1, &b.1) {
        (DrainEntry::Retired { sequence: x, .. }, DrainEntry::Retired { sequence: y, .. }) => {
            *y > *x || (*y == *x && before(a.0.as_str(), b.0.as_str()))
        },
        _ => false,
    }
}

fn same_instance<P>(a: &Item<P>, b: &Item<P>) -> (r: bool)
    requires
        a.1 is Retired,
    ensures
        r == is_of_instance(seq![*b], 0, instance_of(*a)),
{
    match (&a.1, &b.1) {
        (
            DrainEntry::Retired { instance_id: x, .. },
            DrainEntry::Retired { instance_id: y, .. },
        ) => same(y.as_str(), x.as_str()),
        _ => false,
    }
}

/// For each entry, whether its process is among the newest of its instance.
fn within_instance_flags<P>(entries: &SortedTable<DrainEntry<P>>, maximum: usize) -> (flags: Vec<bool>)
    ensures
        flags_are(
            entries.items(),
            flags@,
            |i: int| is_within_instance(entries.items(), i, maximum as nat),
        ),
{
    let ghost items = entries.items();
    let total = entries.len();
    let mut flags: Vec<bool> = Vec::new();
    for i in 0..total
        invariant
            items == entries.items(),
            total == items.len(),
            flags@.len() == i,
            forall|k: int|
                0 <= k < i ==> #[trigger] flags@[k] == is_within_instance(items, k, maximum as nat),
    {
        let item = entries.at(i);
        let flag = match &item.1 {
            DrainEntry::Active { .. } => false,
            DrainEntry::Retired { .. } => {
                let ghost newer_here = |j: int|
                    is_of_instance(items, j, instance_of(items[i as int])) && is_newer(
                        items,
                        i as int,
                        j,
                    );
                proof {
                    lemma_count(0, newer_here);
                }
                let mut found: usize = 0;
                for j in 0..total
                    invariant
                        items == entries.items(),
                        total == items.len(),
                        i < total,
                        *item == items[i as int],
                        item.1 is Retired,
                        newer_here == (|j: int|
                            is_of_instance(items, j, instance_of(items[i as int])) && is_newer(
                                items,
                                i as int,
                                j,
                            )),
                        found == count(j as int, newer_here),
                        found <= j,
                {
                    proof {
                        lemma_count(j as int, newer_here);
                    }
                    let other = entries.at(j);
                    if same_instance(item, other) && newer(item, other) {
                        found = found + 1;
                    }
                }
                found < maximum
            },
        };
        flags.push(flag);
    }
    flags
}

/// For each entry, whether it stays when the oldest processes go.
fn staying_flags<P>(entries: &SortedTable<DrainEntry<P>>, config: ContinuationDrainConfig) -> (flags: Vec<
    bool,
>)
    ensures
        flags_are(entries.items(), flags@, |i: int| stays(entries.items(), i, config)),
{
    let ghost items = entries.items();
    let total = entries.len();
    let first = within_instance_flags(entries, config.maximum_per_instance);
    let mut flags: Vec<bool> = Vec::new();
    for i in 0..total
        invariant
            items == entries.items(),
            total == items.len(),
            first@.len() == total,
            forall|k: int|
                0 <= k < total ==> #[trigger] first@[k] == is_within_instance(
                    items,
                    k,
                    config.maximum_per_instance as nat,
                ),
            flags@.len() == i,
            forall|k: int| 0 <= k < i ==> #[trigger] flags@[k] == stays(items, k, config),
    {
        let item = entries.at(i);
        let flag = match &item.1 {
            DrainEntry::Active { .. } => true,
            DrainEntry::Retired { .. } => {
                let ghost newer_kept = |j: int|
                    is_within_instance(items, j, config.maximum_per_instance as nat) && is_newer(
                        items,
                        i as int,
                        j,
                    );
                proof {
                    lemma_count(0, newer_kept);
                }
                let mut found: usize = 0;
                for j in 0..total
                    invariant
                        items == entries.items(),
                        total == items.len(),
                        i < total,
                        *item == items[i as int],
                        first@.len() == total,
                        forall|k: int|
                            0 <= k < total ==> #[trigger] first@[k] == is_within_instance(
                                items,
                                k,
                                config.maximum_per_instance as nat,
                            ),
                        newer_kept == (|j: int|
                            is_within_instance(items, j, config.maximum_per_instance as nat)
                                && is_newer(items, i as int, j)),
                        found == count(j as int, newer_kept),
                        found <= j,
                {
                    proof {
                        lemma_count(j as int, newer_kept);
                    }
                    let other = entries.at(j);
                    if first[j] && newer(item, other) {
                        found = found + 1;
                    }
                }
                first[i] && found < config.maximum_generations
            },
        };
        flags.push(flag);
    }
    flags
}

/// For each entry, whether it stands.
fn standing_flags<P>(entries: &SortedTable<DrainEntry<P>>, alive: &Vec<String>, now: u128) -> (flags: Vec<
    bool,
>)
    ensures
        flags_are(entries.items(), flags@, |i: int| stands_at(entries.items(), i, alive@, now)),
{
    let mut flags: Vec<bool> = Vec::new();
    let total = entries.len();
    for i in 0..total
        invariant
            total == entries.items().len(),
            flags@.len() == i,
            forall|k: int|
                0 <= k < i ==> #[trigger] flags@[k] == stands_at(entries.items(), k, alive@, now),
    {
        let item = entries.at(i);
        let flag = match &item.1 {
            DrainEntry::Active { .. } => holds(alive, item.0.as_str()),
            DrainEntry::Retired { deadline, .. } => *deadline > now,
        };
        flags.push(flag);
    }
    flags
}

/// For each entry, whether somebody holds it.
fn held_flags<P>(entries: &SortedTable<DrainEntry<P>>, alive: &Vec<String>) -> (flags: Vec<bool>)
    ensures
        flags_are(entries.items(), flags@, |i: int| is_held_at(entries.items(), i, alive@)),
{
    let mut flags: Vec<bool> = Vec::new();
    let total = entries.len();
    for i in 0..total
        invariant
            total == entries.items().len(),
            flags@.len() == i,
            forall|k: int| 0 <= k < i ==> #[trigger] flags@[k] == is_held_at(entries.items(), k, alive@),
    {
        let item = entries.at(i);
        let flag = match &item.1 {
            DrainEntry::Active { .. } => holds(alive, item.0.as_str()),
            DrainEntry::Retired { .. } => true,
        };
        flags.push(flag);
    }
    flags
}

/// What is left of some entries, and the processes of those that are not.
pub open spec fn is_parted<P>(
    items: Seq<Item<P>>,
    left: Seq<Item<P>>,
    gone: Seq<Arc<P>>,
    property: spec_fn(int) -> bool,
) -> bool {
    exists|flags: Seq<bool>|
        {
            &&& #[trigger] flags_are(items, flags, property)
            &&& left == picked(items, flags, true)
            &&& gone == retired_providers(picked(items, flags, false))
        }
}

/// The entries that stand are left.
pub open spec fn parts_by_time<P>(
    items: Seq<Item<P>>,
    left: Seq<Item<P>>,
    gone: Seq<Arc<P>>,
    alive: Seq<String>,
    now: u128,
) -> bool {
    is_parted(items, left, gone, |i: int| stands_at(items, i, alive, now))
}

/// The newest entries are left.
pub open spec fn parts_by_age<P>(
    items: Seq<Item<P>>,
    left: Seq<Item<P>>,
    gone: Seq<Arc<P>>,
    config: ContinuationDrainConfig,
) -> bool {
    is_parted(items, left, gone, |i: int| stays(items, i, config))
}

/// What a conversation is told of the process that it needs.
pub enum Found<P> {
    /// The present generation keeps it.
    Active,
    /// It is kept here.
    Retired(Arc<P>),
    /// It is gone.
    Nothing,
}

/// What becomes of a process that is replaced.
pub struct Retirement<P> {
    /// It is kept here.
    pub retained: bool,
    /// Somebody has to watch the deadlines from now on.
    pub start_reaper: bool,
    /// These processes are ended.
    pub shutdown: Vec<Arc<P>>,
}

impl<P> ContinuationDrain<P> {
    /// How many processes are kept, and for how long.
    pub closed spec fn config(&self) -> ContinuationDrainConfig {
        self.config
    }

    /// The processes, by their names.
    pub closed spec fn entries(&self) -> SortedTable<DrainEntry<P>> {
        self.entries
    }

    /// The number of the next process that is replaced.
    pub closed spec fn next_sequence(&self) -> u64 {
        self.next_sequence
    }

    /// Somebody watches the deadlines.
    pub closed spec fn reaper_running(&self) -> bool {
        self.reaper_running
    }

    /// Some process may be kept, the entries are in order, and none has a number that is still to
    /// come.
    pub open spec fn well_formed(&self) -> bool {
        &&& self.config().maximum_per_instance > 0
        &&& self.config().maximum_generations > 0
        &&& self.entries().well_formed()
        &&& forall|name: Seq<char>| #[trigger]
            self.entries()@.contains_key(name) ==> is_numbered(
                self.entries()@[name],
                self.next_sequence(),
            )
    }

    pub fn new(config: ContinuationDrainConfig) -> (drain: Self)
        requires
            config.maximum_per_instance > 0,
            config.maximum_generations > 0,
        ensures
            drain.well_formed(),
            drain.config() == config,
            drain.entries()@ == Map::<Seq<char>, DrainEntry<P>>::empty(),
            drain.next_sequence() == 0,
            !drain.reaper_running(),
    {
        ContinuationDrain {
            config,
            entries: SortedTable::new(),
            next_sequence: 0,
            reaper_running: false,
        }
    }

    /// Everything but the entries is as it was.
    pub open spec fn same_frame(&self, before: &Self) -> bool {
        &&& self.config() == before.config()
        &&& self.next_sequence() == before.next_sequence()
        &&& self.reaper_running() == before.reaper_running()
    }

    /// What noting a process of the present generation does.
    pub open spec fn registers(
        &self,
        before: &Self,
        owner: Seq<char>,
        alive: Seq<String>,
        result: Result<(), AdminError>,
    ) -> bool {
        &&& self.same_frame(before)
        &&& if before.entries()@.contains_key(owner) && is_held(
            owner,
            before.entries()@[owner],
            alive,
        ) {
            result == Err::<(), AdminError>(
                AdminError {
                    kind: AdminErrorKind::Internal,
                    reason: AdminReason::ContinuationOwner,
                },
            ) && self.entries()@.contains_key(owner) && self.entries()@[owner]
                == before.entries()@[owner]
        } else {
            result is Ok && self.entries()@.contains_key(owner)
                && self.entries()@[owner] == (DrainEntry::<P>::Active {
                superseded: false,
            })
        }
        &&& forall|name: Seq<char>|
            name != owner ==> #[trigger] self.entries()@.contains_key(name) == (
            before.entries()@.contains_key(name) && is_held(
                name,
                before.entries()@[name],
                alive,
            ))
        &&& forall|name: Seq<char>|
            name != owner && #[trigger] self.entries()@.contains_key(name)
                ==> self.entries()@[name] == before.entries()@[name]
    }

    /// Notes a process of the present generation. `alive` names the processes that the present
    /// generation keeps.
    pub fn register(&mut self, owner: String, alive: &Vec<String>) -> (result: Result<(), AdminError>)
        requires
            old(self).well_formed(),
        ensures
            final(self).well_formed(),
            final(self).registers(old(self), owner@, alive@, result),
    {
        let flags = held_flags(&self.entries, alive);
        proof {
            self.entries.lemma_items();
        }
        let ghost items = self.entries.items();
        let _ = self.entries.partition(&flags);
        proof {
            assert forall|name: Seq<char>| #[trigger]
                self.entries@.contains_key(name) == (old(self).entries@.contains_key(name)
                    && is_held(
                name,
                old(self).entries@[name],
                alive@,
            )) by {
                if self.entries@.contains_key(name) {
                    let i = choose|i: int|
                        0 <= i < items.len() && flags@[i] && (#[trigger] items[i]).0@ == name;
                    assert(is_held_at(items, i, alive@));
                }
                if old(self).entries@.contains_key(name) && is_held(
                    name,
                    old(self).entries@[name],
                    alive@,
                ) {
                    let i = choose|i: int| 0 <= i < items.len() && (#[trigger] items[i]).0@ == name;
                    assert(flags@[i] == is_held_at(items, i, alive@));
                    assert(is_flagged(items, flags@, name));
                }
            }
        }
        if self.entries.get(owner.as_str()).is_some() {
            return Err(AdminError::internal(AdminReason::ContinuationOwner));
        }
        self.entries.insert(owner, DrainEntry::Active { superseded: false });
        Ok(())
    }

    /// What is left when the entries that do not stand are given up.
    pub open spec fn is_current(&self, before: &Self, alive: Seq<String>, now: u128) -> bool {
        &&& self.same_frame(before)
        &&& forall|name: Seq<char>| #[trigger]
            self.entries()@.contains_key(name) <==> before.entries()@.contains_key(name) && stands(
                name,
                before.entries()@[name],
                alive,
                now,
            )
        &&& forall|name: Seq<char>| #[trigger]
            self.entries()@.contains_key(name) ==> self.entries()@[name] == before.entries()@[name]
    }

    /// Gives up the entries that do not stand; the processes among them that were kept here are
    /// handed out.
    pub fn take_expired(&mut self, alive: &Vec<String>, now: u128) -> (expired: Vec<Arc<P>>)
        requires
            old(self).well_formed(),
        ensures
            final(self).well_formed(),
            final(self).is_current(old(self), alive@, now),
            parts_by_time(
                old(self).entries().items(),
                final(self).entries().items(),
                expired@,
                alive@,
                now,
            ),
    {
        let flags = standing_flags(&self.entries, alive, now);
        proof {
            self.entries.lemma_items();
        }
        let ghost items = self.entries.items();
        let removed = self.entries.partition(&flags);
        proof {
            assert forall|name: Seq<char>| #[trigger]
                self.entries@.contains_key(name) <==> old(self).entries@.contains_key(name)
                    && stands(
                name,
                old(self).entries@[name],
                alive@,
                now,
            ) by {
                if self.entries@.contains_key(name) {
                    let i = choose|i: int|
                        0 <= i < items.len() && flags@[i] && (#[trigger] items[i]).0@ == name;
                    assert(flags@[i] == stands_at(items, i, alive@, now));
                }
                if old(self).entries@.contains_key(name) && stands(
                    name,
                    old(self).entries@[name],
                    alive@,
                    now,
                ) {
                    let i = choose|i: int| 0 <= i < items.len() && (#[trigger] items[i]).0@ == name;
                    assert(flags@[i] == stands_at(items, i, alive@, now));
                    assert(is_flagged(items, flags@, name));
                }
            }
            assert(flags_are(items, flags@, |i: int| stands_at(items, i, alive@, now)));
        }
        collect_retired(removed)
    }

    /// The process that a conversation needs, after what does not stand was given up.
    fn look_up(&mut self, owner: &str, alive: &Vec<String>, now: u128) -> (found: (
        Found<P>,
        Vec<Arc<P>>,
    ))
        requires
            old(self).well_formed(),
        ensures
            final(self).well_formed(),
            final(self).is_current(old(self), alive@, now),
            found.0 == (if old(self).entries()@.contains_key(owner@) && stands(
                owner@,
                old(self).entries()@[owner@],
                alive@,
                now,
            ) {
                match old(self).entries()@[owner@] {
                    DrainEntry::Active { .. } => Found::Active,
                    DrainEntry::Retired { provider, .. } => Found::Retired(provider),
                }
            } else {
                Found::Nothing
            }),
            parts_by_time(
                old(self).entries().items(),
                final(self).entries().items(),
                found.1@,
                alive@,
                now,
            ),
    {
        let expired = self.take_expired(alive, now);
        let found = match self.entries.get(owner) {
            Some(DrainEntry::Active { .. }) => Found::Active,
            Some(DrainEntry::Retired { provider, .. }) => Found::Retired(Arc::clone(provider)),
            None => Found::Nothing,
        };
        (found, expired)
    }

    /// Forgets a process that turned out to be of no use; where it was kept here, it is handed out.
    fn forget(&mut self, owner: &str) -> (provider: Option<Arc<P>>)
        requires
            old(self).well_formed(),
        ensures
            final(self).well_formed(),
            final(self).same_frame(old(self)),
            final(self).entries()@ == old(self).entries()@.remove(owner@),
            provider == (if old(self).entries()@.contains_key(owner@) {
                match old(self).entries()@[owner@] {
                    DrainEntry::Retired { provider, .. } => Some(provider),
                    DrainEntry::Active { .. } => None,
                }
            } else {
                None
            }),
    {
        match self.entries.remove(owner) {
            Some(DrainEntry::Retired { provider, .. }) => Some(provider),
            _ => None,
        }
    }

    /// The process that is kept here under a name.
    pub fn kept(&self, owner: &str) -> (provider: Option<&Arc<P>>)
        ensures
            match provider {
                Some(kept) => self.entries()@.contains_key(owner@) && (self.entries()@[owner@]
                    matches DrainEntry::Retired { provider: held, .. } && held == *kept),
                None => self.entries()@.contains_key(owner@) ==> self.entries()@[owner@] is Active,
            },
    {
        match self.entries.get(owner) {
            Some(DrainEntry::Retired { provider, .. }) => Some(provider),
            _ => None,
        }
    }

    /// What looking for the process that a conversation needs does, and what is found.
    pub open spec fn resolves(
        &self,
        before: &Self,
        owner: Seq<char>,
        alive: Seq<String>,
        ready: bool,
        now: u128,
        found: (Found<P>, Vec<Arc<P>>),
    ) -> bool {
        &&& self.same_frame(before)
        &&& found.0 == (if ready && before.entries()@.contains_key(owner) && stands(
            owner,
            before.entries()@[owner],
            alive,
            now,
        ) {
            match before.entries()@[owner] {
                DrainEntry::Active { .. } => Found::Active,
                DrainEntry::Retired { provider, .. } => Found::Retired(provider),
            }
        } else {
            Found::Nothing
        })
        &&& self.entries()@.contains_key(owner) == !(found.0 is Nothing)
        &&& forall|name: Seq<char>|
            name != owner ==> #[trigger] self.entries()@.contains_key(name) == (
            before.entries()@.contains_key(name) && stands(
                name,
                before.entries()@[name],
                alive,
                now,
            ))
        &&& forall|name: Seq<char>| #[trigger]
            self.entries()@.contains_key(name) ==> self.entries()@[name]
                == before.entries()@[name]
        &&& exists|expired: Seq<Arc<P>>| #[trigger]
            before.gives_up(expired, alive, now) && found.1@ == (
            match before.entries()@[owner] {
                DrainEntry::Retired { provider, .. } if !ready
                    && before.entries()@.contains_key(owner) && stands(
                    owner,
                    before.entries()@[owner],
                    alive,
                    now,
                ) => expired.push(provider),
                _ => expired,
            })
    }

    /// The process that a conversation needs, if it answers. `ready` says whether the process under
    /// the name answers; one that does not is forgotten. The processes that are ended come with it.
    pub fn resolve(&mut self, owner: &str, alive: &Vec<String>, ready: bool, now: u128) -> (found: (
        Found<P>,
        Vec<Arc<P>>,
    ))
        requires
            old(self).well_formed(),
        ensures
            final(self).well_formed(),
            final(self).resolves(old(self), owner@, alive@, ready, now, found),
    {
        let (found, mut ended) = self.look_up(owner, alive, now);
        let ghost expired = ended@;
        assert(old(self).gives_up(expired, alive@, now));
        if ready {
            match found {
                Found::Nothing => {},
                _ => return (found, ended),
            }
        }
        match self.forget(owner) {
            Some(provider) => ended.push(provider),
            None => {},
        }
        (Found::Nothing, ended)
    }

    /// What it does that another process reads all that one wrote.
    pub open spec fn supersedes(
        &self,
        before: &Self,
        owner: Seq<char>,
        provider: Option<Arc<P>>,
    ) -> bool {
        &&& self.same_frame(before)
        &&& if !before.entries()@.contains_key(owner) {
            provider is None && self.entries()@ == before.entries()@
        } else {
            match before.entries()@[owner] {
                DrainEntry::Active { .. } => provider is None && self.entries()@
                    == before.entries()@.insert(
                    owner,
                    DrainEntry::Active { superseded: true },
                ),
                DrainEntry::Retired { provider: kept, .. } => provider == Some(kept)
                    && self.entries()@ == before.entries()@.remove(owner),
            }
        }
    }

    /// Another process reads all that this one wrote: it need not be kept once it is replaced, and
    /// where it is kept already it is handed out.
    pub fn supersede(&mut self, owner: &str) -> (provider: Option<Arc<P>>)
        requires
            old(self).well_formed(),
        ensures
            final(self).well_formed(),
            final(self).supersedes(old(self), owner@, provider),
    {
        let active = match self.entries.get(owner) {
            Some(DrainEntry::Active { .. }) => true,
            _ => false,
        };
        if active {
            self.entries.insert(owner.to_owned(), DrainEntry::Active { superseded: true });
            return None;
        }
        let provider = self.forget(owner);
        assert(!old(self).entries@.contains_key(owner@) ==> old(self).entries@.remove(owner@)
            =~= old(self).entries@);
        provider
    }

    /// Lets the oldest processes go, as far as more are kept than may be.
    fn trim_to_limits(&mut self) -> (removed: Vec<Arc<P>>)
        requires
            old(self).well_formed(),
        ensures
            final(self).well_formed(),
            final(self).same_frame(old(self)),
            parts_by_age(
                old(self).entries().items(),
                final(self).entries().items(),
                removed@,
                old(self).config(),
            ),
            forall|name: Seq<char>| #[trigger]
                final(self).entries()@.contains_key(name) <==> exists|i: int|
                    0 <= i < old(self).entries().items().len()
                        && (#[trigger] old(self).entries().items()[i]).0@ == name && stays(
                        old(self).entries().items(),
                        i,
                        old(self).config(),
                    ),
            forall|name: Seq<char>| #[trigger]
                final(self).entries()@.contains_key(name) ==> old(self).entries()@.contains_key(name)
                    && final(self).entries()@[name] == old(self).entries()@[name],
    {
        let flags = staying_flags(&self.entries, self.config);
        let ghost items = self.entries.items();
        let ghost config = self.config;
        let removed = self.entries.partition(&flags);
        proof {
            assert forall|name: Seq<char>| #[trigger]
                self.entries@.contains_key(name) <==> exists|i: int|
                0 <= i < items.len() && (#[trigger] items[i]).0@ == name && stays(items, i, config) by {
                if self.entries@.contains_key(name) {
                    let i = choose|i: int|
                        0 <= i < items.len() && flags@[i] && (#[trigger] items[i]).0@ == name;
                    assert(stays(items, i, config));
                }
                if exists|i: int|
                    0 <= i < items.len() && (#[trigger] items[i]).0@ == name && stays(
                        items,
                        i,
                        config,
                    ) {
                    let i = choose|i: int|
                        0 <= i < items.len() && (#[trigger] items[i]).0@ == name && stays(
                            items,
                            i,
                            config,
                        );
                    assert(flags@[i]);
                    assert(is_flagged(items, flags@, name));
                }
            }
            assert(flags_are(items, flags@, |i: int| stays(items, i, config)));
        }
        collect_retired(removed)
    }

    /// A process is kept when it is replaced: it wrote a checkpoint that may still be needed, nobody
    /// else reads it, and it still answers.
    pub open spec fn is_needed(
        &self,
        owner: Seq<char>,
        issued: bool,
        ready: bool,
        alive: Seq<String>,
    ) -> bool {
        &&& issued
        &&& ready
        &&& !(self.entries()@.contains_key(owner) && self.entries()@[owner]
            == (DrainEntry::<P>::Active { superseded: true }) && texts(alive).contains(owner))
    }

    /// The processes of the entries that do not stand, in order.
    pub open spec fn gives_up(&self, expired: Seq<Arc<P>>, alive: Seq<String>, now: u128) -> bool {
        exists|left: Seq<Item<P>>| #[trigger]
            parts_by_time(self.entries().items(), left, expired, alive, now)
    }

    /// What stood before, and a process that was replaced just now.
    pub open spec fn is_filled(
        &self,
        before: &Self,
        owner: Seq<char>,
        provider: Arc<P>,
        instance: Seq<char>,
        alive: Seq<String>,
        now: u128,
    ) -> bool {
        &&& self.entries().well_formed()
        &&& self.config() == before.config()
        &&& self.entries()@.contains_key(owner)
        &&& (self.entries()@[owner] matches DrainEntry::Retired {
            provider: kept,
            instance_id,
            deadline,
            sequence,
        } && kept == provider && instance_id@ == instance && deadline == now
            + before.config().retention_nanos && sequence == before.next_sequence())
        &&& forall|name: Seq<char>|
            name != owner ==> #[trigger] self.entries()@.contains_key(name) == (
            before.entries()@.contains_key(name) && stands(name, before.entries()@[name], alive, now))
        &&& forall|name: Seq<char>|
            name != owner && #[trigger] self.entries()@.contains_key(name) ==> self.entries()@[name]
                == before.entries()@[name]
    }

    /// What taking a process that is replaced does.
    pub open spec fn retires(
        &self,
        before: &Self,
        owner: Seq<char>,
        provider: Arc<P>,
        instance_id: Seq<char>,
        issued: bool,
        ready: bool,
        alive: Seq<String>,
        now: u64,
        outcome: Retirement<P>,
    ) -> bool {
        &&& self.config() == before.config()
        &&& if !before.is_needed(owner, issued, ready, alive) {
            &&& !outcome.retained
            &&& !outcome.start_reaper
            &&& !self.entries()@.contains_key(owner)
            &&& self.next_sequence() == before.next_sequence()
            &&& self.reaper_running() == before.reaper_running()
            &&& before.gives_up(outcome.shutdown@, alive, now as u128)
            &&& forall|name: Seq<char>| #[trigger]
                self.entries()@.contains_key(name) ==> self.entries()@[name]
                    == before.entries()@[name]
            &&& forall|name: Seq<char>|
                name != owner ==> #[trigger] self.entries()@.contains_key(name) == (
                before.entries()@.contains_key(name) && stands(
                    name,
                    before.entries()@[name],
                    alive,
                    now as u128,
                ))
        } else {
            &&& outcome.retained == self.entries()@.contains_key(owner)
            &&& outcome.start_reaper == (outcome.retained && !before.reaper_running())
            &&& self.reaper_running() == (before.reaper_running() || outcome.start_reaper)
            &&& self.next_sequence() == (if before.next_sequence() < u64::MAX {
                (before.next_sequence() + 1) as u64
            } else {
                u64::MAX
            })
            &&& outcome.retained ==> (self.entries()@[owner]
                matches DrainEntry::Retired {
                provider: kept,
                instance_id: instance,
                deadline,
                sequence,
            } && kept == provider && instance@ == instance_id && deadline == now
                + before.config().retention_nanos && sequence == before.next_sequence())
            &&& exists|filled: ContinuationDrain<P>, expired: Seq<Arc<P>>, trimmed: Seq<Arc<P>>|
                {
                    &&& #[trigger] filled.is_filled(
                        before,
                        owner,
                        provider,
                        instance_id,
                        alive,
                        now as u128,
                    )
                    &&& #[trigger] before.gives_up(expired, alive, now as u128)
                    &&& #[trigger] parts_by_age(
                        filled.entries().items(),
                        self.entries().items(),
                        trimmed,
                        before.config(),
                    )
                    &&& outcome.shutdown@ == expired + trimmed
                    &&& forall|name: Seq<char>| #[trigger]
                        self.entries()@.contains_key(name)
                            ==> filled.entries()@.contains_key(name) && self.entries()@[name]
                            == filled.entries()@[name]
                }
            &&& before.config().maximum_per_instance > 0
                && before.config().maximum_generations > 0
                && before.next_sequence() < u64::MAX
                ==> outcome.retained
        }
    }

    /// Takes a process that is replaced. `issued` says that it handed out a checkpoint, `ready` that
    /// it still answers.
    pub fn retire(
        &mut self,
        owner: &str,
        provider: Arc<P>,
        instance_id: &str,
        issued: bool,
        ready: bool,
        alive: &Vec<String>,
        now: u64,
    ) -> (outcome: Retirement<P>)
        requires
            old(self).well_formed(),
        ensures
            final(self).well_formed(),
            final(self).retires(old(self), owner@, provider, instance_id@, issued, ready, alive@, now, outcome),
    {
        let mut shutdown = self.take_expired(alive, now as u128);
        let superseded = match self.entries.get(owner) {
            Some(DrainEntry::Active { superseded }) => *superseded,
            _ => false,
        };
        assert(old(self).gives_up(shutdown@, alive@, now as u128));
        let ghost expired = shutdown@;
        let _ = self.entries.remove(owner);
        if !issued || superseded || !ready {
            return Retirement { retained: false, start_reaper: false, shutdown };
        }
        let sequence = self.next_sequence;
        self.next_sequence = if sequence < u64::MAX {
            sequence + 1
        } else {
            sequence
        };
        self.entries.insert(
            owner.to_owned(),
            DrainEntry::Retired {
                provider,
                instance_id: instance_id.to_owned(),
                deadline: now as u128 + self.config.retention_nanos as u128,
                sequence,
            },
        );
        let ghost filled = *self;
        proof {
            assert(filled.is_filled(
                old(self),
                owner@,
                provider,
                instance_id@,
                alive@,
                now as u128,
            ));
            filled.entries.lemma_items();
            let items = filled.entries.items();
            let config = filled.config;
            let i = choose|i: int| 0 <= i < items.len() && (#[trigger] items[i]).0@ == owner@;
            if config.maximum_per_instance > 0 && config.maximum_generations > 0 && sequence
                < u64::MAX {
                assert forall|j: int| 0 <= j < items.len() implies !(#[trigger] is_newer(
                    items,
                    i,
                    j,
                )) by {
                    assert(filled.entries@.contains_key(items[j].0@));
                    if j != i {
                        assert(items[j].0@ != owner@);
                        assert(old(self).entries@.contains_key(items[j].0@));
                    } else {
                        lemma_text_order(items[i].0@, items[j].0@);
                    }
                }
                newest_stays(items, config, i);
            }
        }
        let mut trimmed = self.trim_to_limits();
        let ghost ended = trimmed@;
        shutdown.append(&mut trimmed);
        assert(shutdown@ =~= expired + ended);
        let retained = self.entries.get(owner).is_some();
        let start_reaper = retained && !self.reaper_running;
        if start_reaper {
            self.reaper_running = true;
        }
        Retirement { retained, start_reaper, shutdown }
    }

    /// The entry at a place is that of a process of an instance whose deadline is to come.
    pub open spec fn is_retained(&self, i: int, instance: Seq<char>, now: u128) -> bool {
        self.entries().items()[i].1 matches DrainEntry::Retired { instance_id, deadline, .. }
            && instance_id@ == instance && deadline > now
    }

    /// How many processes of an instance are kept whose deadline is to come.
    pub open spec fn retained_count(&self, instance: Seq<char>, now: u128) -> nat {
        count(
            self.entries().items().len() as int,
            |i: int| self.is_retained(i, instance, now),
        )
    }

    /// The numbers of processes that are kept, by instance, as far as they can be counted.
    pub open spec fn are_retained(&self, retained: Map<Seq<char>, u32>, now: u128) -> bool {
        &&& forall|instance: Seq<char>| #[trigger]
            retained.contains_key(instance) <==> self.retained_count(instance, now) > 0
        &&& forall|instance: Seq<char>| #[trigger]
            retained.contains_key(instance) ==> retained[instance] == (if self.retained_count(
                instance,
                now,
            ) < u32::MAX {
                self.retained_count(instance, now)
            } else {
                u32::MAX as nat
            })
    }

    /// How many processes are kept of each instance that has any.
    pub fn retained_by_instance(&self, now: u128) -> (retained: SortedTable<u32>)
        requires
            self.well_formed(),
        ensures
            retained.well_formed(),
            self.are_retained(retained@, now),
    {
        let ghost items = self.entries.items();
        let mut retained: SortedTable<u32> = SortedTable::new();
        let total = self.entries.len();
        proof {
            assert forall|instance: Seq<char>| #[trigger]
                retained@.contains_key(instance) <==> count(
                0,
                |i: int| self.is_retained(i, instance, now),
            ) > 0 by {
                lemma_count(0, |i: int| self.is_retained(i, instance, now));
            }
        }
        for i in 0..total
            invariant
                items == self.entries.items(),
                total == items.len(),
                retained.well_formed(),
                forall|instance: Seq<char>| #[trigger]
                    retained@.contains_key(instance) <==> count(
                        i as int,
                        |k: int| self.is_retained(k, instance, now),
                    ) > 0,
                forall|instance: Seq<char>| #[trigger]
                    retained@.contains_key(instance) ==> retained@[instance] == (if count(
                        i as int,
                        |k: int| self.is_retained(k, instance, now),
                    ) < u32::MAX {
                        count(i as int, |k: int| self.is_retained(k, instance, now))
                    } else {
                        u32::MAX as nat
                    }),
        {
            let ghost earlier = retained@;
            match &self.entries.at(i).1 {
                DrainEntry::Retired { instance_id, deadline, .. } if *deadline > now => {
                    let counted: u32 = match retained.get(instance_id.as_str()) {
                        Some(n) => *n,
                        None => 0,
                    };
                    let next: u32 = if counted < u32::MAX {
                        counted + 1
                    } else {
                        counted
                    };
                    retained.insert(instance_id.as_str().to_owned(), next);
                },
                _ => {},
            }
            proof {
                assert forall|instance: Seq<char>|
                    #![trigger retained@.contains_key(instance)]
                    (retained@.contains_key(instance) <==> count(
                        i + 1,
                        |k: int| self.is_retained(k, instance, now),
                    ) > 0) && (retained@.contains_key(instance) ==> retained@[instance] == (if count(
                        i + 1,
                        |k: int| self.is_retained(k, instance, now),
                    ) < u32::MAX {
                        count(i + 1, |k: int| self.is_retained(k, instance, now))
                    } else {
                        u32::MAX as nat
                    })) by {
                    lemma_count(i as int, |k: int| self.is_retained(k, instance, now));
                    assert(earlier.contains_key(instance) || !earlier.contains_key(instance));
                }
            }
        }
        retained
    }

    /// How long it is until the first of the deadlines, if there are any; none where it has come.
    pub open spec fn is_delay(&self, now: u128, delay: Option<u128>) -> bool {
        match delay {
            Some(d) => exists|k: int|
                {
                    &&& 0 <= k < self.entries().items().len()
                    &&& (#[trigger] self.entries().items()[k]).1 matches DrainEntry::Retired {
                        deadline,
                        ..
                    } && d == (if deadline > now {
                        deadline - now
                    } else {
                        0
                    })
                    &&& forall|j: int|
                        0 <= j < self.entries().items().len() ==> ((
                        #[trigger] self.entries().items()[j]).1 matches DrainEntry::Retired {
                            deadline: other,
                            ..
                        } ==> d <= (if other > now {
                            other - now
                        } else {
                            0
                        }))
                },
            None => forall|j: int|
                0 <= j < self.entries().items().len() ==> (
                #[trigger] self.entries().items()[j]).1 is Active,
        }
    }

    /// How long it is until the next deadline, in nanoseconds. Where there is none, nobody watches
    /// the deadlines any more.
    pub fn next_reap_delay(&mut self, now: u128) -> (delay: Option<u128>)
        ensures
            final(self).config() == old(self).config(),
            final(self).entries() == old(self).entries(),
            final(self).next_sequence() == old(self).next_sequence(),
            final(self).reaper_running() == (old(self).reaper_running() && delay is Some),
            old(self).is_delay(now, delay),
    {
        let ghost items = self.entries.items();
        let mut next: Option<u128> = None;
        let ghost mut place: int = 0;
        let total = self.entries.len();
        for i in 0..total
            invariant
                items == self.entries.items(),
                total == items.len(),
                *self == *old(self),
                match next {
                    Some(found) => {
                        &&& 0 <= place < i
                        &&& items[place].1 matches DrainEntry::Retired { deadline, .. } && deadline
                            == found
                        &&& forall|j: int|
                            0 <= j < i ==> ((#[trigger] items[j]).1 matches DrainEntry::Retired {
                                deadline: other,
                                ..
                            } ==> found <= other)
                    },
                    None => forall|j: int| 0 <= j < i ==> (#[trigger] items[j]).1 is Active,
                },
        {
            match &self.entries.at(i).1 {
                DrainEntry::Active { .. } => {},
                DrainEntry::Retired { deadline, .. } => {
                    let sooner = match next {
                        Some(found) => *deadline < found,
                        None => true,
                    };
                    if sooner {
                        next = Some(*deadline);
                        proof {
                            place = i as int;
                        }
                    }
                },
            }
        }
        match next {
            Some(deadline) => {
                assert(items[place].1 is Retired);
                Some(
                    if deadline > now {
                        deadline - now
                    } else {
                        0
                    },
                )
            },
            None => {
                self.reaper_running = false;
                None
            },
        }
    }

    /// Nobody watches the deadlines.
    pub fn reaper_stopped(&mut self)
        ensures
            final(self).config() == old(self).config(),
            final(self).entries() == old(self).entries(),
            final(self).next_sequence() == old(self).next_sequence(),
            !final(self).reaper_running(),
    {
        self.reaper_running = false;
    }

    /// Nothing is kept any more.
    pub open spec fn is_finished(&self, before: &Self) -> bool {
        &&& self.config() == before.config()
        &&& self.next_sequence() == before.next_sequence()
        &&& !self.reaper_running()
        &&& self.entries().items() == Seq::<Item<P>>::empty()
        &&& self.entries()@ == Map::<Seq<char>, DrainEntry<P>>::empty()
    }

    /// Gives everything up, once all processes have ended.
    pub fn finish_shutdown(&mut self)
        requires
            old(self).well_formed(),
        ensures
            final(self).well_formed(),
            final(self).is_finished(old(self)),
    {
        self.reaper_running = false;
        self.entries = SortedTable::new();
    }

    /// The processes that are kept here.
    pub fn retired(&self) -> (providers: Vec<Arc<P>>)
        ensures
            providers@ == retired_providers(self.entries().items()),
    {
        let ghost items = self.entries.items();
        let mut providers: Vec<Arc<P>> = Vec::new();
        let total = self.entries.len();
        assert(items.take(0) =~= Seq::<Item<P>>::empty());
        for i in 0..total
            invariant
                items == self.entries.items(),
                total == items.len(),
                providers@ == retired_providers(items.take(i as int)),
        {
            proof {
                assert(items.take(i + 1).drop_last() =~= items.take(i as int));
                assert(items.take(i + 1).last() == items[i as int]);
            }
            match &self.entries.at(i).1 {
                DrainEntry::Retired { provider, .. } => providers.push(Arc::clone(provider)),
                DrainEntry::Active { .. } => {},
            }
        }
        assert(items.take(total as int) =~= items);
        providers
    }
}

/// Entries with different names.
pub open spec fn are_named_apart<P>(items: Seq<Item<P>>) -> bool {
    forall|i: int, j: int|
        0 <= i < j < items.len() ==> (#[trigger] items[i]).0@ != (#[trigger] items[j]).0@
}

/// To be newer is an order.
proof fn lemma_newer_is_order<P>(items: Seq<Item<P>>, property: spec_fn(int) -> bool)
    requires
        are_named_apart(items),
        forall|i: int| 0 <= i < items.len() && #[trigger] property(i) ==> items[i].1 is Retired,
    ensures
        is_order(items.len() as int, property, |i: int, j: int| is_newer(items, i, j)),
{
    let after = |i: int, j: int| is_newer(items, i, j);
    assert forall|i: int, j: int|
        0 <= i < items.len() && 0 <= j < items.len() && property(i) && property(j) && i
            != j implies #[trigger] after(i, j) || after(j, i) by {
        if i < j {
            assert(items[i].0@ != items[j].0@);
        } else {
            assert(items[j].0@ != items[i].0@);
        }
        lemma_text_order(items[i].0@, items[j].0@);
    }
    assert forall|i: int, j: int, k: int|
        0 <= i < items.len() && 0 <= j < items.len() && 0 <= k < items.len() && property(i)
            && property(j) && property(k) && #[trigger] after(i, j) && #[trigger] after(j, k) && i
            != k implies after(i, k) by {
        if text_less(items[i].0@, items[j].0@) && text_less(items[j].0@, items[k].0@) {
            lemma_bytes_transitive(
                encode_utf8(items[i].0@),
                encode_utf8(items[j].0@),
                encode_utf8(items[k].0@),
            );
        }
    }
}

/// The limits hold: of no instance, and in all, more processes stay than may.
pub proof fn limits_hold<P>(
    items: Seq<Item<P>>,
    config: ContinuationDrainConfig,
    instance: Seq<char>,
)
    requires
        are_named_apart(items),
    ensures
        count(
            items.len() as int,
            |i: int| is_within(items, i, config) && is_of_instance(items, i, instance),
        ) <= config.maximum_per_instance,
        count(items.len() as int, |i: int| is_within(items, i, config))
            <= config.maximum_generations,
{
    let n = items.len() as int;
    let after = |i: int, j: int| is_newer(items, i, j);
    let here = |i: int| is_within(items, i, config) && is_of_instance(items, i, instance);
    lemma_newer_is_order(items, here);
    assert forall|i: int| 0 <= i < n && #[trigger] here(i) implies count(
        n,
        |j: int| here(j) && after(i, j),
    ) < config.maximum_per_instance by {
        let some = |j: int| here(j) && after(i, j);
        let all = |j: int|
            is_of_instance(items, j, instance_of(items[i])) && is_newer(items, i, j);
        lemma_count(n, some);
        lemma_count(n, all);
        assert(crate::counting::places(n, some).subset_of(crate::counting::places(n, all)));
        vstd::set_lib::lemma_len_subset(
            crate::counting::places(n, some),
            crate::counting::places(n, all),
        );
    }
    lemma_bounded(n, here, after, config.maximum_per_instance as nat);
    let kept = |i: int| is_within(items, i, config);
    lemma_newer_is_order(items, kept);
    assert forall|i: int| 0 <= i < n && #[trigger] kept(i) implies count(
        n,
        |j: int| kept(j) && after(i, j),
    ) < config.maximum_generations by {
        let some = |j: int| kept(j) && after(i, j);
        let all = |j: int|
            is_within_instance(items, j, config.maximum_per_instance as nat) && is_newer(
                items,
                i,
                j,
            );
        lemma_count(n, some);
        lemma_count(n, all);
        assert(crate::counting::places(n, some).subset_of(crate::counting::places(n, all)));
        vstd::set_lib::lemma_len_subset(
            crate::counting::places(n, some),
            crate::counting::places(n, all),
        );
    }
    lemma_bounded(n, kept, after, config.maximum_generations as nat);
}

/// The process that was replaced last stays, as long as any may.
pub proof fn newest_stays<P>(items: Seq<Item<P>>, config: ContinuationDrainConfig, newest: int)
    requires
        0 <= newest < items.len(),
        items[newest].1 is Retired,
        forall|j: int| 0 <= j < items.len() ==> !(#[trigger] is_newer(items, newest, j)),
        config.maximum_per_instance > 0,
        config.maximum_generations > 0,
    ensures
        stays(items, newest, config),
{
    let n = items.len() as int;
    let here = |j: int|
        is_of_instance(items, j, instance_of(items[newest])) && is_newer(items, newest, j);
    let kept = |j: int|
        is_within_instance(items, j, config.maximum_per_instance as nat) && is_newer(
            items,
            newest,
            j,
        );
    assert(crate::counting::places(n, here) =~= Set::<int>::empty());
    assert(crate::counting::places(n, kept) =~= Set::<int>::empty());
}

/// Whoever stays has no older one staying in place of a newer one of the same instance: of two
/// processes of an instance, the newer stays within it if the older does.
pub proof fn newer_before_older<P>(
    items: Seq<Item<P>>,
    older: int,
    newer: int,
    maximum_per_instance: nat,
)
    requires
        are_named_apart(items),
        0 <= older < items.len(),
        0 <= newer < items.len(),
        items[older].1 is Retired,
        is_of_instance(items, newer, instance_of(items[older])),
        is_newer(items, older, newer),
        is_within_instance(items, older, maximum_per_instance),
    ensures
        is_within_instance(items, newer, maximum_per_instance),
{
    let n = items.len() as int;
    let retired = |i: int| items[i].1 is Retired;
    lemma_newer_is_order(items, retired);
    let after = |i: int, j: int| is_newer(items, i, j);
    let after_newer = |j: int|
        is_of_instance(items, j, instance_of(items[newer])) && is_newer(items, newer, j);
    let after_older = |j: int|
        is_of_instance(items, j, instance_of(items[older])) && is_newer(items, older, j);
    lemma_count(n, after_newer);
    lemma_count(n, after_older);
    assert forall|j: int| crate::counting::places(n, after_newer).contains(j) implies
        crate::counting::places(n, after_older).contains(j) by {
        assert(retired(older) && retired(newer) && retired(j));
        assert(after(older, newer) && after(newer, j));
        if j == older {
            lemma_text_order(items[older].0@, items[newer].0@);
        }
    }
    vstd::set_lib::lemma_len_subset(
        crate::counting::places(n, after_newer),
        crate::counting::places(n, after_older),
    );
}

/// To give everything up twice is to give it up once.
pub proof fn finished_stays_finished<P>(
    before: ContinuationDrain<P>,
    once: ContinuationDrain<P>,
    twice: ContinuationDrain<P>,
)
    requires
        once.is_finished(&before),
        twice.is_finished(&once),
    ensures
        twice.config() == once.config(),
        twice.next_sequence() == once.next_sequence(),
        twice.reaper_running() == once.reaper_running(),
        twice.entries()@ == once.entries()@,
        twice.entries().items() == once.entries().items(),
{
}

/// What is done with a drain.
pub enum DrainStep<P> {
    Register { owner: Seq<char>, alive: Seq<String>, result: Result<(), AdminError> },
    Supersede { owner: Seq<char>, handed_out: Option<Arc<P>> },
    Retire {
        owner: Seq<char>,
        provider: Arc<P>,
        instance_id: Seq<char>,
        issued: bool,
        ready: bool,
        alive: Seq<String>,
        at: u64,
        outcome: Retirement<P>,
    },
    Resolve {
        owner: Seq<char>,
        alive: Seq<String>,
        ready: bool,
        now: u128,
        found: (Found<P>, Vec<Arc<P>>),
    },
    /// The processes whose time is over are given up.
    Reap { alive: Seq<String>, now: u128 },
    /// The next deadline is looked for, or nobody watches deadlines any more.
    Watch,
    /// Everything is given up.
    Finish,
}

impl<P> DrainStep<P> {
    /// The step makes one drain into another.
    pub open spec fn leads(&self, before: &ContinuationDrain<P>, after: &ContinuationDrain<P>) -> bool {
        match *self {
            DrainStep::Register { owner, alive, result } => after.registers(
                before,
                owner,
                alive,
                result,
            ),
            DrainStep::Supersede { owner, handed_out } => after.supersedes(
                before,
                owner,
                handed_out,
            ),
            DrainStep::Retire {
                owner,
                provider,
                instance_id,
                issued,
                ready,
                alive,
                at,
                outcome,
            } => after.retires(
                before,
                owner,
                provider,
                instance_id,
                issued,
                ready,
                alive,
                at,
                outcome,
            ),
            DrainStep::Resolve { owner, alive, ready, now, found } => after.resolves(
                before,
                owner,
                alive,
                ready,
                now,
                found,
            ),
            DrainStep::Reap { alive, now } => after.is_current(before, alive, now),
            DrainStep::Watch => {
                &&& after.config() == before.config()
                &&& after.entries() == before.entries()
                &&& after.next_sequence() == before.next_sequence()
            },
            DrainStep::Finish => after.is_finished(before),
        }
    }

    /// The name that the step is about, if it is about one.
    pub open spec fn subject(&self) -> Option<Seq<char>> {
        match *self {
            DrainStep::Register { owner, .. } => Some(owner),
            DrainStep::Supersede { owner, .. } => Some(owner),
            DrainStep::Retire { owner, .. } => Some(owner),
            DrainStep::Resolve { owner, .. } => Some(owner),
            _ => None,
        }
    }

    /// The step is taken while the present generation keeps a process.
    pub open spec fn is_while_alive(&self, owner: Seq<char>) -> bool {
        match *self {
            DrainStep::Register { alive, .. } => texts(alive).contains(owner),
            DrainStep::Retire { alive, .. } => texts(alive).contains(owner),
            DrainStep::Resolve { alive, .. } => texts(alive).contains(owner),
            DrainStep::Reap { alive, .. } => texts(alive).contains(owner),
            DrainStep::Supersede { .. } => true,
            DrainStep::Watch => true,
            DrainStep::Finish => false,
        }
    }
}

/// What was done with a drain, one step after another.
pub open spec fn is_history<P>(
    drains: Seq<ContinuationDrain<P>>,
    steps: Seq<DrainStep<P>>,
) -> bool {
    &&& drains.len() == steps.len() + 1
    &&& forall|i: int| 0 <= i < drains.len() ==> (#[trigger] drains[i]).well_formed()
    &&& forall|i: int|
        0 <= i < steps.len() ==> (#[trigger] steps[i]).leads(&drains[i], &drains[i + 1])
}

/// What the present generation keeps stays when the oldest processes go.
proof fn lemma_active_stays<P>(
    filled: ContinuationDrain<P>,
    after: ContinuationDrain<P>,
    trimmed: Seq<Arc<P>>,
    config: ContinuationDrainConfig,
    owner: Seq<char>,
)
    requires
        filled.entries().well_formed(),
        after.entries().well_formed(),
        parts_by_age(filled.entries().items(), after.entries().items(), trimmed, config),
        filled.entries()@.contains_key(owner),
        filled.entries()@[owner] is Active,
    ensures
        after.entries()@.contains_key(owner),
{
    filled.entries().lemma_items();
    after.entries().lemma_items();
    let items = filled.entries().items();
    let left = after.entries().items();
    let property = |i: int| stays(items, i, config);
    let flags = choose|flags: Seq<bool>|
        {
            &&& #[trigger] flags_are(items, flags, property)
            &&& left == picked(items, flags, true)
            &&& trimmed == retired_providers(picked(items, flags, false))
        };
    let i = choose|i: int| 0 <= i < items.len() && (#[trigger] items[i]).0@ == owner;
    assert(flags[i] == property(i));
    lemma_picked(items, flags, true);
    let k = choose|k: int| 0 <= k < left.len() && left[k] == items[i];
    assert(left[k].0@ == owner);
}

/// A process that the present generation keeps stays noted as it was by whatever is done about others.
proof fn lemma_noted_stays<P>(
    before: ContinuationDrain<P>,
    after: ContinuationDrain<P>,
    step: DrainStep<P>,
    owner: Seq<char>,
)
    requires
        after.well_formed(),
        step.leads(&before, &after),
        step.subject() != Some(owner),
        step.is_while_alive(owner),
        before.entries()@.contains_key(owner),
        before.entries()@[owner] is Active,
    ensures
        after.entries()@.contains_key(owner),
        after.entries()@[owner] == before.entries()@[owner],
{
    let entry = before.entries()@[owner];
    match step {
        DrainStep::Retire {
            owner: other,
            provider,
            instance_id,
            issued,
            ready,
            alive,
            at: now,
            outcome,
        } => {
            assert(stands(owner, entry, alive, now as u128));
            if before.is_needed(other, issued, ready, alive) {
                let (filled, expired, trimmed) = choose|
                    filled: ContinuationDrain<P>,
                    expired: Seq<Arc<P>>,
                    trimmed: Seq<Arc<P>>,
                |
                    {
                        &&& #[trigger] filled.is_filled(
                            &before,
                            other,
                            provider,
                            instance_id,
                            alive,
                            now as u128,
                        )
                        &&& #[trigger] before.gives_up(expired, alive, now as u128)
                        &&& #[trigger] parts_by_age(
                            filled.entries().items(),
                            after.entries().items(),
                            trimmed,
                            before.config(),
                        )
                        &&& outcome.shutdown@ == expired + trimmed
                        &&& forall|name: Seq<char>| #[trigger]
                            after.entries()@.contains_key(name)
                                ==> filled.entries()@.contains_key(name) && after.entries()@[name]
                                == filled.entries()@[name]
                    };
                assert(filled.entries()@.contains_key(owner));
                lemma_active_stays(filled, after, trimmed, before.config(), owner);
            } else {
                assert(after.entries()@.contains_key(owner));
            }
        },
        DrainStep::Register { alive, .. } => {
            assert(is_held(owner, entry, alive));
            assert(after.entries()@.contains_key(owner));
        },
        DrainStep::Resolve { alive, now, .. } => {
            assert(stands(owner, entry, alive, now));
            assert(after.entries()@.contains_key(owner));
        },
        DrainStep::Reap { alive, now } => {
            assert(stands(owner, entry, alive, now));
            assert(after.entries()@.contains_key(owner));
        },
        _ => {},
    }
}

/// A step leaves a name unknown unless it notes or takes a process under it.
proof fn lemma_unknown_stays<P>(
    before: ContinuationDrain<P>,
    after: ContinuationDrain<P>,
    step: DrainStep<P>,
    owner: Seq<char>,
)
    requires
        step.leads(&before, &after),
        !before.entries()@.contains_key(owner),
        step.subject() == Some(owner) ==> !(step is Register) && !(step is Retire),
    ensures
        !after.entries()@.contains_key(owner),
        step matches DrainStep::Resolve { owner: asked, found, .. } ==> (asked == owner ==> found.0
            is Nothing),
{
    match step {
        DrainStep::Retire {
            owner: other,
            provider,
            instance_id,
            issued,
            ready,
            alive,
            at: now,
            outcome,
        } => {
            if before.is_needed(other, issued, ready, alive) && after.entries()@.contains_key(owner) {
                let (filled, expired, trimmed) = choose|
                    filled: ContinuationDrain<P>,
                    expired: Seq<Arc<P>>,
                    trimmed: Seq<Arc<P>>,
                |
                    {
                        &&& #[trigger] filled.is_filled(
                            &before,
                            other,
                            provider,
                            instance_id,
                            alive,
                            now as u128,
                        )
                        &&& #[trigger] before.gives_up(expired, alive, now as u128)
                        &&& #[trigger] parts_by_age(
                            filled.entries().items(),
                            after.entries().items(),
                            trimmed,
                            before.config(),
                        )
                        &&& outcome.shutdown@ == expired + trimmed
                        &&& forall|name: Seq<char>| #[trigger]
                            after.entries()@.contains_key(name)
                                ==> filled.entries()@.contains_key(name) && after.entries()@[name]
                                == filled.entries()@[name]
                    };
                assert(filled.entries()@.contains_key(owner));
            }
        },
        _ => {},
    }
}

/// After a process was superseded and before it is replaced it stays noted as superseded.
proof fn lemma_superseded_stays<P>(
    drains: Seq<ContinuationDrain<P>>,
    steps: Seq<DrainStep<P>>,
    owner: Seq<char>,
    s: int,
    k: int,
)
    requires
        is_history(drains, steps),
        0 <= s < k <= steps.len(),
        steps[s] matches DrainStep::Supersede { owner: named, .. } && named == owner,
        drains[s].entries()@.contains_key(owner),
        drains[s].entries()@[owner] is Active,
        forall|i: int|
            s < i < k ==> (#[trigger] steps[i]).subject() != Some(owner) && steps[i].is_while_alive(
                owner,
            ),
    ensures
        drains[k].entries()@.contains_key(owner),
        drains[k].entries()@[owner] == (DrainEntry::<P>::Active { superseded: true }),
    decreases k,
{
    assert(steps[k - 1].leads(&drains[k - 1], &drains[k]));
    if k > s + 1 {
        lemma_superseded_stays(drains, steps, owner, s, k - 1);
        assert(drains[k].well_formed());
        lemma_noted_stays(drains[k - 1], drains[k], steps[k - 1], owner);
    }
}

/// A process whose conversations another one has taken over is not kept when it is replaced, and no
/// conversation finds it from then on, whatever is done about other processes before and after. The
/// process is there until it is replaced, and nobody else takes its name.
pub proof fn superseded_is_not_kept<P>(
    drains: Seq<ContinuationDrain<P>>,
    steps: Seq<DrainStep<P>>,
    owner: Seq<char>,
    s: int,
    r: int,
    k: int,
)
    requires
        is_history(drains, steps),
        0 <= s < r <= k < steps.len(),
        steps[s] matches DrainStep::Supersede { owner: named, .. } && named == owner,
        drains[s].entries()@.contains_key(owner),
        drains[s].entries()@[owner] is Active,
        forall|i: int|
            s < i < r ==> (#[trigger] steps[i]).subject() != Some(owner) && steps[i].is_while_alive(
                owner,
            ),
        steps[r] is Retire,
        steps[r].subject() == Some(owner),
        steps[r].is_while_alive(owner),
        forall|i: int|
            r < i <= k ==> ((#[trigger] steps[i]).subject() == Some(owner) ==> !(steps[i] is Register)
                && !(steps[i] is Retire)),
    ensures
        steps[r] matches DrainStep::Retire { outcome, .. } && !outcome.retained,
        !drains[k + 1].entries()@.contains_key(owner),
        steps[k] matches DrainStep::Resolve { owner: asked, found, .. } ==> (asked == owner
            ==> found.0 is Nothing),
    decreases k,
{
    assert(steps[k].leads(&drains[k], &drains[k + 1]));
    if k == r {
        lemma_superseded_stays(drains, steps, owner, s, r);
    } else {
        superseded_is_not_kept(drains, steps, owner, s, r, k - 1);
        lemma_unknown_stays(drains[k], drains[k + 1], steps[k], owner);
    }
}

/// A process that handed out a checkpoint, still answers and was not superseded is kept when it is
/// replaced, as long as numbers go up; a conversation that asks next finds it until its time is over.
pub proof fn issued_is_kept<P>(
    before: ContinuationDrain<P>,
    after: ContinuationDrain<P>,
    later: ContinuationDrain<P>,
    owner: Seq<char>,
    provider: Arc<P>,
    instance_id: Seq<char>,
    alive: Seq<String>,
    now: u64,
    outcome: Retirement<P>,
    alive_later: Seq<String>,
    now_later: u128,
    found: (Found<P>, Vec<Arc<P>>),
)
    requires
        before.well_formed(),
        before.next_sequence() < u64::MAX,
        !(before.entries()@.contains_key(owner) && before.entries()@[owner]
            == (DrainEntry::<P>::Active { superseded: true })),
        after.retires(&before, owner, provider, instance_id, true, true, alive, now, outcome),
        later.resolves(&after, owner, alive_later, true, now_later, found),
    ensures
        outcome.retained,
        found.0 == (if now_later < now + before.config().retention_nanos {
            Found::Retired(provider)
        } else {
            Found::Nothing
        }),
{
}

/// An entry stands as long as the present generation keeps its process, or until its deadline. Time
/// alone gives up no process that the present generation keeps.
pub proof fn stands_until<P>(name: Seq<char>, entry: DrainEntry<P>, alive: Seq<String>, now: u128)
    ensures
        entry is Active ==> (stands(name, entry, alive, now) <==> exists|i: int|
            0 <= i < alive.len() && (#[trigger] alive[i])@ == name),
        entry is Active ==> (is_held(name, entry, alive) <==> stands(name, entry, alive, now)),
        entry matches DrainEntry::Retired { deadline, .. } ==> (stands(name, entry, alive, now)
            <==> now < deadline),
        entry is Retired ==> is_held(name, entry, alive),
{
    let names = texts(alive);
    assert(names.len() == alive.len());
    assert(forall|i: int| 0 <= i < alive.len() ==> #[trigger] names[i] == alive[i]@);
    if names.contains(name) {
        let i = choose|i: int| 0 <= i < names.len() && names[i] == name;
        assert(alive[i]@ == name);
    }
    if exists|i: int| 0 <= i < alive.len() && (#[trigger] alive[i])@ == name {
        let i = choose|i: int| 0 <= i < alive.len() && (#[trigger] alive[i])@ == name;
        assert(names[i] == name);
    }
}

/// Of two processes that were replaced, the one with the higher number is the newer one, and of two
/// with different names one is newer than the other, never both.
pub proof fn newer_by_number<P>(items: Seq<Item<P>>, i: int, j: int)
    requires
        items[i].1 is Retired,
        items[j].1 is Retired,
    ensures
        items[i].1->sequence < items[j].1->sequence ==> is_newer(items, i, j),
        is_newer(items, i, j) ==> !is_newer(items, j, i),
        is_newer(items, i, j) ==> items[i].1->sequence <= items[j].1->sequence,
        items[i].0@ != items[j].0@ ==> is_newer(items, i, j) || is_newer(items, j, i),
{
    lemma_text_order(items[i].0@, items[j].0@);
    lemma_text_order(items[j].0@, items[i].0@);
}

/// A process of the present generation is noted unless its name is taken: by one that is kept here,
/// or by one that the present generation keeps. Of the others, only those go that the present
/// generation has given up.
pub proof fn noted_unless_taken<P>(
    before: ContinuationDrain<P>,
    after: ContinuationDrain<P>,
    owner: Seq<char>,
    alive: Seq<String>,
    result: Result<(), AdminError>,
    name: Seq<char>,
)
    requires
        after.registers(&before, owner, alive, result),
        name != owner,
    ensures
        after.entries()@.contains_key(owner),
        !before.entries()@.contains_key(owner) ==> result is Ok,
        before.entries()@.contains_key(owner) && before.entries()@[owner] is Retired ==> result is Err,
        before.entries()@.contains_key(owner) && before.entries()@[owner] is Active ==> (result is Err
            <==> texts(alive).contains(owner)),
        result matches Err(error) ==> error.kind == AdminErrorKind::Internal
            && after.entries()@[owner] == before.entries()@[owner],
        result is Ok ==> after.entries()@[owner] == (DrainEntry::<P>::Active { superseded: false }),
        before.entries()@.contains_key(name) && before.entries()@[name] is Retired
            ==> after.entries()@.contains_key(name) && after.entries()@[name]
            == before.entries()@[name],
        before.entries()@.contains_key(name) && before.entries()@[name] is Active ==> (
        after.entries()@.contains_key(name) <==> texts(alive).contains(name)),
        !before.entries()@.contains_key(name) ==> !after.entries()@.contains_key(name),
        after.next_sequence() == before.next_sequence(),
        after.reaper_running() == before.reaper_running(),
{
}

/// The processes of some entries are those that were replaced among them.
pub proof fn retired_among<P>(items: Seq<Item<P>>, provider: Arc<P>)
    ensures
        retired_providers(items).contains(provider) <==> exists|i: int|
            0 <= i < items.len() && ((#[trigger] items[i]).1 matches DrainEntry::Retired {
                provider: held,
                ..
            } && held == provider),
        retired_providers(items).len() <= items.len(),
    decreases items.len(),
{
    let all = retired_providers(items);
    if items.len() > 0 {
        let front = items.drop_last();
        let some = retired_providers(front);
        retired_among(front, provider);
        if all.contains(provider) {
            let k = choose|k: int| 0 <= k < all.len() && all[k] == provider;
            if k < some.len() {
                assert(some[k] == provider);
                assert(some.contains(provider));
                let i = choose|i: int|
                    0 <= i < front.len() && ((#[trigger] front[i]).1 matches DrainEntry::Retired {
                        provider: held,
                        ..
                    } && held == provider);
                assert(items[i] == front[i]);
            } else {
                assert(items[items.len() - 1] == items.last());
            }
        }
        if exists|i: int|
            0 <= i < items.len() && ((#[trigger] items[i]).1 matches DrainEntry::Retired {
                provider: held,
                ..
            } && held == provider) {
            let i = choose|i: int|
                0 <= i < items.len() && ((#[trigger] items[i]).1 matches DrainEntry::Retired {
                    provider: held,
                    ..
                } && held == provider);
            if i < front.len() {
                assert(front[i] == items[i]);
                assert(some.contains(provider));
                let k = choose|k: int| 0 <= k < some.len() && some[k] == provider;
                assert(all[k] == provider);
            } else {
                assert(all[all.len() - 1] == provider);
            }
        }
    }
}

/// The processes that are handed out to be ended are those whose deadline has come, and no others.
pub proof fn ended_by_deadline<P>(
    drain: ContinuationDrain<P>,
    expired: Seq<Arc<P>>,
    alive: Seq<String>,
    now: u128,
    provider: Arc<P>,
)
    requires
        drain.gives_up(expired, alive, now),
    ensures
        expired.contains(provider) <==> exists|i: int|
            0 <= i < drain.entries().items().len() && ((#[trigger] drain.entries().items()[i]).1
                matches DrainEntry::Retired { provider: held, deadline, .. } && held == provider
                && deadline <= now),
{
    let items = drain.entries().items();
    let left = choose|left: Seq<Item<P>>| #[trigger]
        parts_by_time(items, left, expired, alive, now);
    let property = |i: int| stands_at(items, i, alive, now);
    let flags = choose|flags: Seq<bool>|
        {
            &&& #[trigger] flags_are(items, flags, property)
            &&& left == picked(items, flags, true)
            &&& expired == retired_providers(picked(items, flags, false))
        };
    let gone = picked(items, flags, false);
    lemma_picked(items, flags, false);
    retired_among(gone, provider);
    if expired.contains(provider) {
        let k = choose|k: int|
            0 <= k < gone.len() && ((#[trigger] gone[k]).1 matches DrainEntry::Retired {
                provider: held,
                ..
            } && held == provider);
        let i = choose|i: int|
            0 <= i < items.len() && flags[i] == false && #[trigger] items[i] == gone[k];
        assert(flags[i] == property(i));
        assert(!stands_at(items, i, alive, now));
    }
    if exists|i: int|
        0 <= i < items.len() && ((#[trigger] items[i]).1 matches DrainEntry::Retired {
            provider: held,
            deadline,
            ..
        } && held == provider && deadline <= now) {
        let i = choose|i: int|
            0 <= i < items.len() && ((#[trigger] items[i]).1 matches DrainEntry::Retired {
                provider: held,
                deadline,
                ..
            } && held == provider && deadline <= now);
        assert(flags[i] == property(i));
        assert(!stands_at(items, i, alive, now));
        assert(gone.contains(items[i]));
        let k = choose|k: int| 0 <= k < gone.len() && gone[k] == items[i];
        assert(gone[k].1 is Retired);
    }
}

/// A conversation finds the process that it needs where it is kept: with the present generation, or
/// here until its deadline, as long as it answers. One that does not answer is not kept here any
/// longer, and is handed out to be ended.
pub proof fn found_where_kept<P>(
    before: ContinuationDrain<P>,
    after: ContinuationDrain<P>,
    owner: Seq<char>,
    alive: Seq<String>,
    ready: bool,
    now: u128,
    found: (Found<P>, Vec<Arc<P>>),
)
    requires
        after.resolves(&before, owner, alive, ready, now, found),
    ensures
        !before.entries()@.contains_key(owner) || !ready ==> found.0 is Nothing,
        found.0 is Nothing <==> !after.entries()@.contains_key(owner),
        before.entries()@.contains_key(owner) && before.entries()@[owner] is Active && ready ==> (
        found.0 is Active <==> texts(alive).contains(owner)),
        before.entries()@.contains_key(owner) ==> (before.entries()@[owner]
            matches DrainEntry::Retired { provider, deadline, .. } ==> (ready && now < deadline
            ==> found.0 == Found::Retired(provider))),
        before.entries()@.contains_key(owner) ==> (before.entries()@[owner]
            matches DrainEntry::Retired { provider, deadline, .. } ==> (now >= deadline ==> found.0
            is Nothing)),
        before.entries()@.contains_key(owner) ==> (before.entries()@[owner]
            matches DrainEntry::Retired { provider, deadline, .. } ==> (!ready && now < deadline
            ==> found.1@.len() > 0 && found.1@.last() == provider)),
        found.0 matches Found::Retired(provider) ==> (before.entries()@[owner]
            matches DrainEntry::Retired { provider: held, .. } && held == provider),
        after.next_sequence() == before.next_sequence(),
{
}

/// A process is kept when it is replaced if it handed out a checkpoint, still answers, and no other
/// process of the present generation reads all that it wrote.
pub proof fn needed_if_issued<P>(
    drain: ContinuationDrain<P>,
    owner: Seq<char>,
    issued: bool,
    ready: bool,
    alive: Seq<String>,
)
    ensures
        drain.is_needed(owner, issued, ready, alive) ==> issued && ready,
        issued && ready && !drain.entries()@.contains_key(owner) ==> drain.is_needed(
            owner,
            issued,
            ready,
            alive,
        ),
        issued && ready && drain.entries()@.contains_key(owner) ==> (drain.entries()@[owner]
            matches DrainEntry::Active { superseded } ==> (drain.is_needed(
            owner,
            issued,
            ready,
            alive,
        ) <==> !superseded || !texts(alive).contains(owner))),
        issued && ready && drain.entries()@.contains_key(owner) && drain.entries()@[owner] is Retired
            ==> drain.is_needed(owner, issued, ready, alive),
{
}

/// Once another process reads all that one wrote, nothing of it is kept here: what was kept is handed
/// out, and what the present generation keeps is marked. Everything else is as it was.
pub proof fn superseded_is_let_go<P>(
    before: ContinuationDrain<P>,
    after: ContinuationDrain<P>,
    owner: Seq<char>,
    provider: Option<Arc<P>>,
    name: Seq<char>,
)
    requires
        after.supersedes(&before, owner, provider),
    ensures
        provider is Some <==> before.entries()@.contains_key(owner) && before.entries()@[owner]
            is Retired,
        provider matches Some(handed_out) ==> (before.entries()@[owner]
            matches DrainEntry::Retired { provider: held, .. } && held == handed_out),
        after.entries()@.contains_key(owner) <==> before.entries()@.contains_key(owner)
            && before.entries()@[owner] is Active,
        after.entries()@.contains_key(owner) ==> after.entries()@[owner] == (DrainEntry::<
            P,
        >::Active { superseded: true }),
        name != owner ==> after.entries()@.contains_key(name) == before.entries()@.contains_key(name)
            && (after.entries()@.contains_key(name) ==> after.entries()@[name]
            == before.entries()@[name]),
{
}

/// A process that is not needed is not kept, and takes no number; one that is kept has the number that
/// was next, and is kept for as long as is set.
pub proof fn kept_with_the_next_number<P>(
    before: ContinuationDrain<P>,
    after: ContinuationDrain<P>,
    owner: Seq<char>,
    provider: Arc<P>,
    instance_id: Seq<char>,
    issued: bool,
    ready: bool,
    alive: Seq<String>,
    now: u64,
    outcome: Retirement<P>,
)
    requires
        after.retires(
            &before,
            owner,
            provider,
            instance_id,
            issued,
            ready,
            alive,
            now,
            outcome,
        ),
    ensures
        !issued || !ready ==> !outcome.retained,
        outcome.retained == after.entries()@.contains_key(owner),
        outcome.retained ==> (after.entries()@[owner] matches DrainEntry::Retired {
            provider: kept,
            instance_id: instance,
            deadline,
            sequence,
        } && kept == provider && instance@ == instance_id && deadline == now
            + before.config().retention_nanos && sequence == before.next_sequence()),
        outcome.start_reaper <==> outcome.retained && !before.reaper_running(),
        after.reaper_running() <==> before.reaper_running() || outcome.retained,
        !issued || !ready ==> after.next_sequence() == before.next_sequence(),
        outcome.retained && before.next_sequence() < u64::MAX ==> after.next_sequence()
            == before.next_sequence() + 1,
        after.config() == before.config(),
{
}

/// When the delay is over the first deadline has come, and none had come before; without a delay no
/// process is kept here.
pub proof fn delay_to_the_first_deadline<P>(
    drain: ContinuationDrain<P>,
    now: u128,
    delay: Option<u128>,
    i: int,
)
    requires
        drain.is_delay(now, delay),
        0 <= i < drain.entries().items().len(),
    ensures
        delay is None ==> drain.entries().items()[i].1 is Active,
        drain.entries().items()[i].1 is Retired ==> delay is Some,
        drain.entries().items()[i].1 matches DrainEntry::Retired { deadline, .. } ==> (delay
            matches Some(d) ==> (d > 0 ==> now + d <= deadline)),
        drain.entries().items()[i].1 matches DrainEntry::Retired { deadline, .. } ==> (deadline <= now
            ==> delay == Some(0u128)),
        delay matches Some(d) ==> exists|k: int|
            0 <= k < drain.entries().items().len() && ((#[trigger] drain.entries().items()[k]).1
                matches DrainEntry::Retired { deadline, .. } && deadline <= now + d),
{
    match delay {
        Some(d) => {
            let items = drain.entries().items();
            assert(items[i] == drain.entries().items()[i]);
            let k = choose|k: int|
                {
                    &&& 0 <= k < drain.entries().items().len()
                    &&& (#[trigger] drain.entries().items()[k]).1 matches DrainEntry::Retired {
                        deadline,
                        ..
                    } && d == (if deadline > now {
                        deadline - now
                    } else {
                        0
                    })
                    &&& forall|j: int|
                        0 <= j < drain.entries().items().len() ==> ((
                        #[trigger] drain.entries().items()[j]).1 matches DrainEntry::Retired {
                            deadline: other,
                            ..
                        } ==> d <= (if other > now {
                            other - now
                        } else {
                            0
                        }))
                };
            assert(items[k].1 is Retired);
        },
        None => {},
    }
}

/// A process counts for its instance as long as its deadline is to come.
pub proof fn retained_until<P>(
    drain: ContinuationDrain<P>,
    i: int,
    instance: Seq<char>,
    now: u128,
)
    ensures
        drain.entries().items()[i].1 is Active ==> !drain.is_retained(i, instance, now),
        drain.entries().items()[i].1 matches DrainEntry::Retired { instance_id, deadline, .. } ==> (
        drain.is_retained(i, instance, now) <==> instance_id@ == instance && now < deadline),
{
}

/// An instance is counted as long as a process of it is kept whose deadline is to come, and never with
/// more processes than are kept at all.
pub proof fn counted_while_kept<P>(
    drain: ContinuationDrain<P>,
    retained: Map<Seq<char>, u32>,
    now: u128,
    instance: Seq<char>,
)
    requires
        drain.are_retained(retained, now),
    ensures
        retained.contains_key(instance) <==> exists|i: int|
            0 <= i < drain.entries().items().len() && ((#[trigger] drain.entries().items()[i]).1
                matches DrainEntry::Retired { instance_id, deadline, .. } && instance_id@ == instance
                && now < deadline),
        retained.contains_key(instance) ==> 0 < retained[instance] <= drain.entries().items().len(),
{
    let items = drain.entries().items();
    let bound = items.len() as int;
    let property = |i: int| drain.is_retained(i, instance, now);
    crate::counting::lemma_count(bound, property);
    let all = crate::counting::places(bound, property);
    assert(drain.retained_count(instance, now) == all.len());
    if all.len() > 0 {
        let i = all.choose();
        assert(all.contains(i));
        assert(property(i));
        assert(items[i].1 is Retired);
    }
    if exists|i: int|
        0 <= i < items.len() && ((#[trigger] items[i]).1 matches DrainEntry::Retired {
            instance_id,
            deadline,
            ..
        } && instance_id@ == instance && now < deadline) {
        let i = choose|i: int|
            0 <= i < items.len() && ((#[trigger] items[i]).1 matches DrainEntry::Retired {
                instance_id,
                deadline,
                ..
            } && instance_id@ == instance && now < deadline);
        assert(property(i));
        assert(all.contains(i));
        assert(all.len() > 0) by {
            if all.len() == 0 {
                assert(all =~= Set::<int>::empty());
            }
        }
    }
}

} // verus!
