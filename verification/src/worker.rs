//! The rounds of the host's tasks: which instances are served and in which order, where the list of
//! accounts goes on, and what a round reports.

use vstd::prelude::*;
use vstd::string::*;

use crate::decimal::{decimal, decimal_text};
use crate::fault::{ProviderAdminError, ProviderAdminErrorKind};
use crate::identifier::{is_uuid, new_uuid};
use crate::maintenance::{worker_of, MaintenanceKind, WorkerKind};
use crate::text::{same, text_of};

verus! {

/// How many accounts of an instance one round serves.
pub const PAGE_SIZE: u16 = 16;

/// How many accounts are served at a time.
pub const CONCURRENCY: usize = 4;

/// How long a round may take, in seconds.
pub const CYCLE_TIMEOUT_SECONDS: u64 = 150;

/// For how long a worker holds its task, in seconds.
pub const LEASE_SECONDS: u64 = 900;

/// After how many seconds a round that failed is tried again, at first and at most.
pub const RETRY_SECONDS: (u64, u64) = (1, 60);

/// After how many seconds a worker renews its hold on its task.
pub const LEASE_RENEWAL_SECONDS: u64 = 300;

/// A worker for one task: what it is called and when it runs. Times are in seconds.
#[derive(Clone, Copy, Debug)]
pub struct WorkerContribution {
    pub kind: MaintenanceKind,
    pub worker: WorkerKind,
    pub owner: &'static str,
    pub interval: u64,
    pub first_retry: u64,
    pub last_retry: u64,
    pub lease: u64,
    pub lease_renewal: u64,
}

/// A worker runs as often as its task needs, and holds its task for a while.
pub open spec fn is_contribution(contribution: WorkerContribution, kind: MaintenanceKind) -> bool {
    &&& contribution.kind == kind
    &&& contribution.worker == worker_of(kind).0
    &&& contribution.owner@ == worker_of(kind).1
    &&& contribution.interval == worker_of(kind).2
    &&& contribution.first_retry == RETRY_SECONDS.0
    &&& contribution.last_retry == RETRY_SECONDS.1
    &&& contribution.lease == LEASE_SECONDS
    &&& contribution.lease_renewal == LEASE_RENEWAL_SECONDS
}

/// One worker for each task.
pub fn worker_contributions() -> (contributions: Vec<WorkerContribution>)
    ensures
        contributions@.len() == 4,
        is_contribution(contributions@[0], MaintenanceKind::Credentials),
        is_contribution(contributions@[1], MaintenanceKind::Quota),
        is_contribution(contributions@[2], MaintenanceKind::Models),
        is_contribution(contributions@[3], MaintenanceKind::RequestProfiles),
{
    let kinds = MaintenanceKind::all();
    let mut contributions: Vec<WorkerContribution> = Vec::new();
    for i in 0..4
        invariant
            kinds@.len() == 4,
            contributions@.len() == i,
            forall|k: int|
                0 <= k < i ==> is_contribution(#[trigger] contributions@[k], kinds@[k]),
    {
        let kind = kinds[i];
        let (worker, owner, interval) = kind.worker();
        contributions.push(
            WorkerContribution {
                kind,
                worker,
                owner,
                interval,
                first_retry: RETRY_SECONDS.0,
                last_retry: RETRY_SECONDS.1,
                lease: LEASE_SECONDS,
                lease_renewal: LEASE_RENEWAL_SECONDS,
            },
        );
    }
    contributions
}

/// An instance that a task may serve.
pub struct MaintenanceEntry {
    pub instance_id: String,
    pub artifact_sha256: String,
    pub revision: u64,
    /// Its provider does what the task needs.
    pub supported: bool,
}

/// An instance as it is set up now.
pub struct PluginInstance {
    pub id: String,
    pub enabled: bool,
    pub artifact_sha256: String,
    pub revision: u64,
}

/// How far the accounts of an instance have been served.
pub struct Cursor {
    pub instance_id: String,
    pub revision: u64,
    pub after: Option<String>,
}

/// A task of the host, over its rounds.
pub struct PluginMaintenanceTask {
    pub cursors: Vec<Cursor>,
    pub last_instance: Option<String>,
}

/// Why a round failed.
#[derive(Clone, Copy, Debug, PartialEq, Eq, Structural)]
pub enum WorkerFailure {
    /// The round took too long.
    Timeout,
    /// What the round needs could not be read.
    Incomplete,
    /// The accounts could not be listed.
    AccountList,
    /// The provider failed.
    Provider(ProviderAdminErrorKind),
}

/// An instance is set up as the entry says.
pub open spec fn is_instance(entry: MaintenanceEntry, instance: PluginInstance) -> bool {
    &&& instance.enabled
    &&& instance.id@ == entry.instance_id@
    &&& instance.artifact_sha256@ == entry.artifact_sha256@
    &&& instance.revision == entry.revision
}

/// Some instance is set up as the entry says.
pub open spec fn is_current(entry: MaintenanceEntry, instances: Seq<PluginInstance>) -> bool {
    exists|i: int| 0 <= i < instances.len() && is_instance(entry, #[trigger] instances[i])
}

/// Whether an instance is still set up as it was.
pub fn current(entry: &MaintenanceEntry, instances: &Vec<PluginInstance>) -> (r: bool)
    ensures
        r == is_current(*entry, instances@),
{
    for i in 0..instances.len()
        invariant
            forall|k: int| 0 <= k < i ==> !is_instance(*entry, #[trigger] instances@[k]),
    {
        let instance = &instances[i];
        if instance.enabled && same(instance.id.as_str(), entry.instance_id.as_str()) && same(
            instance.artifact_sha256.as_str(),
            entry.artifact_sha256.as_str(),
        ) && instance.revision == entry.revision {
            assert(is_instance(*entry, instances@[i as int]));
            return true;
        }
    }
    false
}

/// The places of the entries that are served, in order.
pub open spec fn served(
    entries: Seq<MaintenanceEntry>,
    instances: Seq<PluginInstance>,
) -> Seq<usize>
    decreases entries.len(),
{
    if entries.len() == 0 {
        Seq::empty()
    } else if entries.last().supported && is_current(entries.last(), instances) {
        served(entries.drop_last(), instances).push((entries.len() - 1) as usize)
    } else {
        served(entries.drop_last(), instances)
    }
}

/// Each served place is that of an entry that is supported and set up.
proof fn lemma_served(entries: Seq<MaintenanceEntry>, instances: Seq<PluginInstance>)
    requires
        entries.len() <= usize::MAX,
    ensures
        served(entries, instances).len() <= entries.len(),
        forall|k: int|
            0 <= k < served(entries, instances).len() ==> {
                let place = #[trigger] served(entries, instances)[k];
                place < entries.len() && entries[place as int].supported && is_current(
                    entries[place as int],
                    instances,
                )
            },
        forall|i: int|
            0 <= i < entries.len() && entries[i].supported && is_current(entries[i], instances)
                ==> #[trigger] served(entries, instances).contains(i as usize),
    decreases entries.len(),
{
    if entries.len() > 0 {
        let front = entries.drop_last();
        lemma_served(front, instances);
        let all = served(entries, instances);
        let earlier = served(front, instances);
        assert forall|i: int|
            0 <= i < entries.len() && entries[i].supported && is_current(
                entries[i],
                instances,
            ) implies #[trigger] all.contains(i as usize) by {
            if i < entries.len() - 1 {
                assert(front[i] == entries[i]);
                assert(earlier.contains(i as usize));
                let k = choose|k: int| 0 <= k < earlier.len() && earlier[k] == i as usize;
                assert(all[k] == i as usize);
            } else {
                assert(all[all.len() - 1] == i as usize);
            }
        }
        assert forall|k: int| 0 <= k < all.len() implies {
            let place = #[trigger] all[k];
            place < entries.len() && entries[place as int].supported && is_current(
                entries[place as int],
                instances,
            )
        } by {
            if k < earlier.len() {
                assert(all[k] == earlier[k]);
                assert(front[earlier[k] as int] == entries[earlier[k] as int]);
            }
        }
    }
}

/// The place among the served ones of the first entry of an instance.
pub open spec fn is_place_of(
    entries: Seq<MaintenanceEntry>,
    places: Seq<usize>,
    instance: Seq<char>,
    index: int,
) -> bool {
    &&& 0 <= index < places.len()
    &&& entries[places[index] as int].instance_id@ == instance
    &&& forall|k: int|
        0 <= k < index ==> entries[(#[trigger] places[k]) as int].instance_id@ != instance
}

/// The place behind another; behind the last one is the first.
pub open spec fn behind(places: Seq<usize>, index: int) -> int {
    if index + 1 == places.len() {
        0
    } else {
        index + 1
    }
}

/// The place among the served ones with which a round begins: the one behind the instance that was
/// served last.
pub open spec fn is_start(
    entries: Seq<MaintenanceEntry>,
    places: Seq<usize>,
    last: Option<String>,
    start: int,
) -> bool {
    match last {
        Some(last) => if exists|index: int| #[trigger] is_place_of(entries, places, last@, index) {
            exists|index: int|
                (#[trigger] is_place_of(entries, places, last@, index)) && start == behind(
                    places,
                    index,
                )
        } else {
            start == 0
        },
        None => start == 0,
    }
}

/// The served places from a start on, and then those before it.
pub open spec fn rotated(places: Seq<usize>, start: int) -> Seq<usize> {
    places.skip(start) + places.take(start)
}

/// Some served entry is that of an instance at a revision.
pub open spec fn is_served(
    entries: Seq<MaintenanceEntry>,
    instances: Seq<PluginInstance>,
    instance: Seq<char>,
    revision: u64,
) -> bool {
    exists|i: int|
        0 <= i < entries.len() && (#[trigger] entries[i]).supported && is_current(
            entries[i],
            instances,
        ) && entries[i].instance_id@ == instance && entries[i].revision == revision
}

/// Where the accounts of an instance go on.
pub open spec fn cursor_of(cursors: Seq<Cursor>, instance: Seq<char>, revision: u64) -> Option<
    Option<Seq<char>>,
>
    decreases cursors.len(),
{
    if cursors.len() == 0 {
        None
    } else if cursors.last().instance_id@ == instance && cursors.last().revision == revision {
        Some(text_of(cursors.last().after))
    } else {
        cursor_of(cursors.drop_last(), instance, revision)
    }
}

/// A cursor that stands last counts; the others are what they were.
proof fn lemma_cursor_pushed(cursors: Seq<Cursor>, cursor: Cursor)
    ensures
        forall|instance: Seq<char>, revision: u64| #[trigger]
            cursor_of(cursors.push(cursor), instance, revision) == (if cursor.instance_id@
                == instance && cursor.revision == revision {
                Some(text_of(cursor.after))
            } else {
                cursor_of(cursors, instance, revision)
            }),
{
    assert(cursors.push(cursor).drop_last() =~= cursors);
}

/// The same cursors with one more: what the last one says counts.
proof fn lemma_cursor_taken(cursors: Seq<Cursor>, k: int)
    requires
        0 <= k < cursors.len(),
    ensures
        forall|instance: Seq<char>, revision: u64| #[trigger]
            cursor_of(cursors.take(k + 1), instance, revision) == (if cursors[k].instance_id@
                == instance && cursors[k].revision == revision {
                Some(text_of(cursors[k].after))
            } else {
                cursor_of(cursors.take(k), instance, revision)
            }),
{
    assert(cursors.take(k + 1) =~= cursors.take(k).push(cursors[k]));
    lemma_cursor_pushed(cursors.take(k), cursors[k]);
}

fn serves(
    entries: &Vec<MaintenanceEntry>,
    instances: &Vec<PluginInstance>,
    cursor: &Cursor,
) -> (r: bool)
    ensures
        r == is_served(entries@, instances@, cursor.instance_id@, cursor.revision),
{
    for i in 0..entries.len()
        invariant
            forall|k: int|
                0 <= k < i ==> !((#[trigger] entries@[k]).supported && is_current(
                    entries@[k],
                    instances@,
                ) && entries@[k].instance_id@ == cursor.instance_id@ && entries@[k].revision
                    == cursor.revision),
    {
        let entry = &entries[i];
        if entry.supported && same(entry.instance_id.as_str(), cursor.instance_id.as_str())
            && entry.revision == cursor.revision && current(entry, instances) {
            return true;
        }
    }
    false
}

fn served_places(entries: &Vec<MaintenanceEntry>, instances: &Vec<PluginInstance>) -> (places: Vec<
    usize,
>)
    ensures
        places@ == served(entries@, instances@),
{
    let mut places: Vec<usize> = Vec::new();
    assert(entries@.take(0) =~= Seq::<MaintenanceEntry>::empty());
    for i in 0..entries.len()
        invariant
            places@ == served(entries@.take(i as int), instances@),
    {
        proof {
            assert(entries@.take(i + 1).drop_last() =~= entries@.take(i as int));
            assert(entries@.take(i + 1).last() == entries@[i as int]);
        }
        if entries[i].supported && current(&entries[i], instances) {
            places.push(i);
        }
    }
    assert(entries@.take(entries@.len() as int) =~= entries@);
    places
}

impl PluginMaintenanceTask {
    pub fn new() -> (task: Self)
        ensures
            task.cursors@.len() == 0,
            task.last_instance is None,
    {
        PluginMaintenanceTask { cursors: Vec::new(), last_instance: None }
    }

    fn retain_cursors(
        &mut self,
        entries: &Vec<MaintenanceEntry>,
        instances: &Vec<PluginInstance>,
    )
        ensures
            final(self).last_instance == old(self).last_instance,
            forall|instance: Seq<char>, revision: u64| #[trigger]
                cursor_of(final(self).cursors@, instance, revision) == (if is_served(
                    entries@,
                    instances@,
                    instance,
                    revision,
                ) {
                    cursor_of(old(self).cursors@, instance, revision)
                } else {
                    None
                }),
    {
        let ghost all = self.cursors@;
        let mut rest: Vec<Cursor> = Vec::new();
        rest.append(&mut self.cursors);
        assert(rest@ =~= all);
        let total = rest.len();
        let mut kept: Vec<Cursor> = Vec::new();
        let mut i: usize = 0;
        assert(rest@ =~= all.skip(0));
        assert(all.take(0) =~= Seq::<Cursor>::empty());
        while i < total
            invariant
                i <= total,
                total == all.len(),
                rest@ == all.skip(i as int),
                forall|instance: Seq<char>, revision: u64| #[trigger]
                    cursor_of(kept@, instance, revision) == (if is_served(
                        entries@,
                        instances@,
                        instance,
                        revision,
                    ) {
                        cursor_of(all.take(i as int), instance, revision)
                    } else {
                        None
                    }),
            decreases total - i,
        {
            let cursor = rest.remove(0);
            proof {
                assert(cursor == all[i as int]);
                assert(rest@ =~= all.skip(i + 1));
                lemma_cursor_taken(all, i as int);
                lemma_cursor_pushed(kept@, cursor);
            }
            if serves(entries, instances, &cursor) {
                kept.push(cursor);
            }
            i = i + 1;
        }
        assert(all.take(total as int) =~= all);
        self.cursors = kept;
    }

    fn start(&self, entries: &Vec<MaintenanceEntry>, places: &Vec<usize>) -> (start: usize)
        requires
            forall|k: int| 0 <= k < places@.len() ==> #[trigger] places@[k] < entries@.len(),
        ensures
            is_start(entries@, places@, self.last_instance, start as int),
            start <= places@.len(),
            places@.len() > 0 ==> start < places@.len(),
    {
        match &self.last_instance {
            Some(last) => {
                for k in 0..places.len()
                    invariant
                        self.last_instance matches Some(kept) && kept == *last,
                        forall|j: int|
                            0 <= j < places@.len() ==> #[trigger] places@[j] < entries@.len(),
                        forall|j: int|
                            0 <= j < k ==> entries@[(#[trigger] places@[j]) as int].instance_id@
                                != last@,
                {
                    if same(entries[places[k]].instance_id.as_str(), last.as_str()) {
                        proof {
                            assert(is_place_of(entries@, places@, last@, k as int));
                            assert(is_start(
                                entries@,
                                places@,
                                self.last_instance,
                                behind(places@, k as int),
                            ));
                        }
                        return if k + 1 == places.len() {
                            0
                        } else {
                            k + 1
                        };
                    }
                }
                0
            },
            None => 0,
        }
    }

    /// The places of the entries that a round serves, in the order in which it serves them. What was
    /// noted of other instances is forgotten.
    pub fn plan(
        &mut self,
        entries: &Vec<MaintenanceEntry>,
        instances: &Vec<PluginInstance>,
    ) -> (order: Vec<usize>)
        ensures
            final(self).plans(old(self), entries@, instances@, order@),
    {
        self.retain_cursors(entries, instances);
        let places = served_places(entries, instances);
        proof {
            assert(entries@.len() == entries.len());
            lemma_served(entries@, instances@);
        }
        let start = self.start(entries, &places);
        let mut order: Vec<usize> = Vec::new();
        for k in start..places.len()
            invariant
                start <= places@.len(),
                order@ == places@.subrange(start as int, k as int),
        {
            order.push(places[k]);
            assert(places@.subrange(start as int, k as int).push(places@[k as int])
                =~= places@.subrange(start as int, k + 1));
        }
        assert(order@ =~= places@.skip(start as int));
        for k in 0..start
            invariant
                start <= places@.len(),
                order@ == places@.skip(start as int) + places@.take(k as int),
        {
            order.push(places[k]);
            assert((places@.skip(start as int) + places@.take(k as int)).push(places@[k as int])
                =~= places@.skip(start as int) + places@.take(k + 1));
        }
        order
    }

    /// An instance is served: the next round begins behind it, however this one ends.
    pub fn begin(&mut self, entry: &MaintenanceEntry)
        ensures
            final(self).cursors == old(self).cursors,
            text_of(final(self).last_instance) == Some(entry.instance_id@),
    {
        self.last_instance = Some(entry.instance_id.as_str().to_owned());
    }

    /// Where the accounts of an instance go on.
    pub fn cursor(&self, entry: &MaintenanceEntry) -> (after: Option<String>)
        ensures
            text_of(after) == self.position(entry.instance_id@, entry.revision),
    {
        let mut i: usize = self.cursors.len();
        assert(self.cursors@.take(i as int) =~= self.cursors@);
        while i > 0
            invariant
                i <= self.cursors@.len(),
                cursor_of(self.cursors@, entry.instance_id@, entry.revision) == cursor_of(
                    self.cursors@.take(i as int),
                    entry.instance_id@,
                    entry.revision,
                ),
            decreases i,
        {
            i = i - 1;
            let cursor = &self.cursors[i];
            proof {
                lemma_cursor_taken(self.cursors@, i as int);
            }
            if same(cursor.instance_id.as_str(), entry.instance_id.as_str()) && cursor.revision
                == entry.revision {
                return cursor.after.clone();
            }
        }
        None
    }

    /// Notes where the accounts of an instance go on.
    pub fn note(&mut self, entry: &MaintenanceEntry, after: Option<String>)
        ensures
            final(self).notes(old(self), *entry, text_of(after)),
    {
        let cursor = Cursor {
            instance_id: entry.instance_id.as_str().to_owned(),
            revision: entry.revision,
            after,
        };
        let total = self.cursors.len();
        for i in 0..total
            invariant
                total == self.cursors@.len(),
                *self == *old(self),
                cursor.instance_id@ == entry.instance_id@,
                cursor.revision == entry.revision,
                cursor.after == after,
                forall|k: int|
                    0 <= k < i ==> !((#[trigger] self.cursors@[k]).instance_id@
                        == entry.instance_id@ && self.cursors@[k].revision == entry.revision),
        {
            if same(self.cursors[i].instance_id.as_str(), entry.instance_id.as_str())
                && self.cursors[i].revision == entry.revision {
                let ghost all = self.cursors@;
                let _ = self.cursors.remove(i);
                proof {
                    lemma_cursor_removed(all, i as int, cursor);
                }
                self.cursors.push(cursor);
                return;
            }
        }
        proof {
            lemma_cursor_pushed(self.cursors@, cursor);
        }
        self.cursors.push(cursor);
    }
}

/// A cursor that takes the place of another of its instance.
proof fn lemma_cursor_removed(cursors: Seq<Cursor>, i: int, cursor: Cursor)
    requires
        0 <= i < cursors.len(),
        cursors[i].instance_id@ == cursor.instance_id@,
        cursors[i].revision == cursor.revision,
    ensures
        forall|instance: Seq<char>, revision: u64| #[trigger]
            cursor_of(cursors.remove(i).push(cursor), instance, revision) == (if instance
                == cursor.instance_id@ && revision == cursor.revision {
                Some(text_of(cursor.after))
            } else {
                cursor_of(cursors, instance, revision)
            }),
{
    lemma_cursor_pushed(cursors.remove(i), cursor);
    assert forall|instance: Seq<char>, revision: u64|
        !(instance == cursor.instance_id@ && revision
            == cursor.revision) implies #[trigger] cursor_of(
        cursors.remove(i).push(cursor),
        instance,
        revision,
    ) == cursor_of(cursors, instance, revision) by {
        lemma_other_cursor(cursors, i, instance, revision);
    }
}

/// What is noted of an instance does not depend on what is noted of another.
proof fn lemma_other_cursor(cursors: Seq<Cursor>, i: int, instance: Seq<char>, revision: u64)
    requires
        0 <= i < cursors.len(),
        !(cursors[i].instance_id@ == instance && cursors[i].revision == revision),
    ensures
        cursor_of(cursors.remove(i), instance, revision) == cursor_of(cursors, instance, revision),
    decreases cursors.len(),
{
    if i == cursors.len() - 1 {
        assert(cursors.remove(i) =~= cursors.drop_last());
    } else {
        assert(cursors.remove(i).drop_last() =~= cursors.drop_last().remove(i));
        assert(cursors.remove(i).last() == cursors.last());
        lemma_other_cursor(cursors.drop_last(), i, instance, revision);
    }
}

/// The name of one instance's share of a round.
pub open spec fn is_task_id(
    text: Seq<char>,
    worker: Seq<char>,
    instance: Seq<char>,
    revision: u64,
) -> bool {
    exists|cycle: Seq<char>| #[trigger]
        is_uuid(cycle) && text == "worker:"@ + worker + ":instance:"@ + instance + ":revision:"@
            + decimal_text(revision as nat) + ":cycle:"@ + cycle
}

/// Names one instance's share of a round, after the worker, the instance, its version and an identifier
/// that is drawn anew each time.
pub fn task_id(worker: &str, entry: &MaintenanceEntry) -> (text: String)
    ensures
        is_task_id(text@, worker@, entry.instance_id@, entry.revision),
{
    let cycle = new_uuid();
    let mut text = "worker:".to_owned();
    text.append(worker);
    text.append(":instance:");
    text.append(entry.instance_id.as_str());
    text.append(":revision:");
    text.append(decimal(entry.revision).as_str());
    text.append(":cycle:");
    text.append(cycle.as_str());
    assert(is_uuid(cycle@));
    text
}

/// What serving an account reports: an account that somebody else changed meanwhile is no failure.
pub fn account_outcome(result: Result<(), ProviderAdminError>) -> (outcome: Result<
    (),
    WorkerFailure,
>)
    ensures
        outcome == outcome_of(result),
{
    match result {
        Ok(()) => Ok(()),
        Err(error) => if error.kind == ProviderAdminErrorKind::Conflict {
            Ok(())
        } else {
            Err(WorkerFailure::Provider(error.kind))
        },
    }
}

/// What renewing a list of clients reports.
pub fn profiles_outcome(result: Result<(), ProviderAdminError>) -> (outcome: Result<
    (),
    WorkerFailure,
>)
    ensures
        outcome == (match result {
            Ok(()) => Ok::<(), WorkerFailure>(()),
            Err(error) => Err(WorkerFailure::Provider(error.kind)),
        }),
{
    match result {
        Ok(()) => Ok(()),
        Err(error) => Err(WorkerFailure::Provider(error.kind)),
    }
}

/// The first failure of a list.
pub open spec fn first_failure(outcomes: Seq<Result<(), WorkerFailure>>) -> Result<
    (),
    WorkerFailure,
>
    decreases outcomes.len(),
{
    if outcomes.len() == 0 {
        Ok(())
    } else if first_failure(outcomes.drop_last()) is Err {
        first_failure(outcomes.drop_last())
    } else {
        match outcomes.last() {
            Ok(_) => Ok(()),
            Err(failure) => Err(failure),
        }
    }
}

/// What is reported of several things that were done: a failure does not stop the others, and the
/// first one counts.
pub struct Report {
    pub failed: usize,
    pub first: Option<WorkerFailure>,
    pub outcomes: Ghost<Seq<Result<(), WorkerFailure>>>,
}

impl Report {
    /// The report tells the first failure of all.
    pub open spec fn well_formed(&self) -> bool {
        first_failure(self.outcomes@) == (match self.first {
            Some(failure) => Err::<(), WorkerFailure>(failure),
            None => Ok(()),
        })
    }

    pub fn new() -> (report: Self)
        ensures
            report.well_formed(),
            report.outcomes@ == Seq::<Result<(), WorkerFailure>>::empty(),
            report.failed == 0,
    {
        Report { failed: 0, first: None, outcomes: Ghost(Seq::empty()) }
    }

    /// Takes in what came of one thing.
    pub fn take(&mut self, outcome: Result<(), WorkerFailure>)
        requires
            old(self).well_formed(),
        ensures
            final(self).well_formed(),
            final(self).outcomes@ == old(self).outcomes@.push(outcome),
            final(self).failed == (if outcome is Err && old(self).failed < usize::MAX {
                old(self).failed + 1
            } else {
                old(self).failed as int
            }),
    {
        proof {
            assert(self.outcomes@.push(outcome).drop_last() =~= self.outcomes@);
            self.outcomes@ = self.outcomes@.push(outcome);
        }
        match outcome {
            Ok(()) => {},
            Err(failure) => {
                if self.failed < usize::MAX {
                    self.failed = self.failed + 1;
                }
                if self.first.is_none() {
                    self.first = Some(failure);
                }
            },
        }
    }

    /// What is reported in the end.
    pub fn outcome(&self) -> (result: Result<(), WorkerFailure>)
        requires
            self.well_formed(),
        ensures
            result == first_failure(self.outcomes@),
    {
        match self.first {
            Some(failure) => Err(failure),
            None => Ok(()),
        }
    }
}

/// No instance is left out: each one that a task can serve is in the round, wherever the round
/// begins.
pub proof fn rounds_leave_nobody_out(
    entries: Seq<MaintenanceEntry>,
    instances: Seq<PluginInstance>,
    start: int,
    place: usize,
)
    requires
        entries.len() <= usize::MAX,
        0 <= start <= served(entries, instances).len(),
        place < entries.len(),
        entries[place as int].supported,
        is_current(entries[place as int], instances),
    ensures
        rotated(served(entries, instances), start).contains(place),
        rotated(served(entries, instances), start).len() == served(entries, instances).len(),
{
    let places = served(entries, instances);
    lemma_served(entries, instances);
    assert(places.contains(place as int as usize));
    let k = choose|k: int| 0 <= k < places.len() && places[k] == place;
    let order = rotated(places, start);
    if k >= start {
        assert(order[k - start] == place);
    } else {
        assert(order[places.len() - start + k] == place);
    }
}

/// A slow instance does not starve the others: after it was served, a round begins with the next
/// one, and it comes last itself.
pub proof fn rounds_go_on(
    entries: Seq<MaintenanceEntry>,
    places: Seq<usize>,
    last: String,
    start: int,
    index: int,
)
    requires
        is_place_of(entries, places, last@, index),
        is_start(entries, places, Some(last), start),
    ensures
        0 <= start < places.len(),
        rotated(places, start)[places.len() - 1] == places[index],
        index + 1 < places.len() ==> rotated(places, start)[0] == places[index + 1],
{
    assert(exists|found: int| #[trigger] is_place_of(entries, places, last@, found));
    assert(exists|found: int|
        (#[trigger] is_place_of(entries, places, last@, found)) && start == behind(places, found));
    let found = choose|found: int|
        (#[trigger] is_place_of(entries, places, last@, found)) && start == behind(places, found);
    assert(is_place_of(entries, places, last@, found));
    if found < index {
        assert(entries[places[found] as int].instance_id@ != last@);
    } else if index < found {
        assert(entries[places[index] as int].instance_id@ != last@);
    }
}

/// A failure never hides another's: as long as one thing failed, a failure is reported.
pub proof fn failures_are_told(outcomes: Seq<Result<(), WorkerFailure>>, i: int)
    requires
        0 <= i < outcomes.len(),
        outcomes[i] is Err,
    ensures
        first_failure(outcomes) is Err,
    decreases outcomes.len(),
{
    if i < outcomes.len() - 1 {
        failures_are_told(outcomes.drop_last(), i);
    }
}

/// An instance is served exactly if its provider does what the task needs and it is enabled and set up
/// as it was, at the same artifact and revision; each once and in order.
pub proof fn served_in_order(
    entries: Seq<MaintenanceEntry>,
    instances: Seq<PluginInstance>,
    place: usize,
)
    requires
        entries.len() <= usize::MAX,
    ensures
        served(entries, instances).contains(place) <==> place < entries.len()
            && entries[place as int].supported && exists|i: int|
            0 <= i < instances.len() && (#[trigger] instances[i]).enabled && instances[i].id@
                == entries[place as int].instance_id@ && instances[i].artifact_sha256@
                == entries[place as int].artifact_sha256@ && instances[i].revision
                == entries[place as int].revision,
        forall|i: int, j: int|
            0 <= i < j < served(entries, instances).len() ==> served(entries, instances)[i]
                < served(entries, instances)[j],
        forall|i: int|
            0 <= i < served(entries, instances).len() ==> #[trigger] served(entries, instances)[i]
                < entries.len(),
    decreases entries.len(),
{
    if entries.len() > 0 {
        let front = entries.drop_last();
        served_in_order(front, instances, place);
        let kept = served(front, instances);
        let last = (entries.len() - 1) as usize;
        if place < entries.len() {
            lemma_current(entries[place as int], instances);
        }
        lemma_current(entries.last(), instances);
        if kept.contains(place) {
            let k = choose|k: int| 0 <= k < kept.len() && kept[k] == place;
            assert(kept.push(last)[k] == place);
            assert(front[place as int] == entries[place as int]);
        }
        assert(kept.push(last)[kept.len() as int] == last);
        if place < front.len() {
            assert(front[place as int] == entries[place as int]);
        }
        if served(entries, instances).contains(place) && !kept.contains(place) {
            let k = choose|k: int|
                0 <= k < served(entries, instances).len() && served(entries, instances)[k] == place;
            if k < kept.len() {
                assert(kept[k] == place);
            }
        }
    }
}

proof fn lemma_current(entry: MaintenanceEntry, instances: Seq<PluginInstance>)
    ensures
        is_current(entry, instances) <==> exists|i: int|
            0 <= i < instances.len() && (#[trigger] instances[i]).enabled && instances[i].id@
                == entry.instance_id@ && instances[i].artifact_sha256@ == entry.artifact_sha256@
                && instances[i].revision == entry.revision,
{
    if is_current(entry, instances) {
        let i = choose|i: int| 0 <= i < instances.len() && is_instance(entry, #[trigger] instances[i]);
        assert(instances[i].enabled);
    }
    if exists|i: int|
        0 <= i < instances.len() && (#[trigger] instances[i]).enabled && instances[i].id@
            == entry.instance_id@ && instances[i].artifact_sha256@ == entry.artifact_sha256@
            && instances[i].revision == entry.revision {
        let i = choose|i: int|
            0 <= i < instances.len() && (#[trigger] instances[i]).enabled && instances[i].id@
                == entry.instance_id@ && instances[i].artifact_sha256@ == entry.artifact_sha256@
                && instances[i].revision == entry.revision;
        assert(is_instance(entry, instances[i]));
    }
}

/// A round serves the places from its start on in their order, and those before it after them.
pub proof fn rounds_turn(places: Seq<usize>, start: int, i: int)
    requires
        0 <= start <= places.len(),
        0 <= i < places.len(),
    ensures
        rotated(places, start).len() == places.len(),
        i < places.len() - start ==> rotated(places, start)[i] == places[start + i],
        i >= places.len() - start ==> rotated(places, start)[i] == places[start + i - places.len()],
{
}

/// Where the accounts of an instance go on is what was noted last for it at its revision; what is
/// noted of others changes nothing.
pub proof fn last_note_counts(cursors: Seq<Cursor>, noted: Cursor, instance: Seq<char>, revision: u64)
    ensures
        noted.instance_id@ == instance && noted.revision == revision ==> cursor_of(
            cursors.push(noted),
            instance,
            revision,
        ) == Some(text_of(noted.after)),
        noted.instance_id@ != instance || noted.revision != revision ==> cursor_of(
            cursors.push(noted),
            instance,
            revision,
        ) == cursor_of(cursors, instance, revision),
        cursor_of(Seq::empty(), instance, revision) is None,
{
    assert(cursors.push(noted).drop_last() =~= cursors);
}

/// A round reports the first failure of all, and none exactly if nothing failed.
pub proof fn first_failure_counts(outcomes: Seq<Result<(), WorkerFailure>>)
    ensures
        first_failure(outcomes) is Ok <==> forall|i: int|
            0 <= i < outcomes.len() ==> (#[trigger] outcomes[i]) is Ok,
        first_failure(outcomes) is Err ==> exists|i: int|
            0 <= i < outcomes.len() && #[trigger] outcomes[i] == first_failure(outcomes) && forall|
                j: int,
            |
                0 <= j < i ==> (#[trigger] outcomes[j]) is Ok,
    decreases outcomes.len(),
{
    if outcomes.len() > 0 {
        let front = outcomes.drop_last();
        let last = outcomes.len() - 1;
        first_failure_counts(front);
        assert(outcomes[last] == outcomes.last());
        if first_failure(front) is Err {
            let i = choose|i: int|
                0 <= i < front.len() && #[trigger] front[i] == first_failure(front) && forall|j: int|
                    0 <= j < i ==> (#[trigger] front[j]) is Ok;
            assert(outcomes[i] == front[i]);
            assert forall|j: int| 0 <= j < i implies (#[trigger] outcomes[j]) is Ok by {
                assert(front[j] == outcomes[j]);
            }
        } else {
            assert forall|j: int| 0 <= j < last implies (#[trigger] outcomes[j]) is Ok by {
                assert(front[j] is Ok);
            }
        }
    }
}

/// Each worker tries again after one second at first and after a minute at last, and holds its turn for
/// a quarter of an hour, renewed every five minutes.
pub proof fn contributions_by_task(contribution: WorkerContribution, kind: MaintenanceKind)
    requires
        is_contribution(contribution, kind),
    ensures
        contribution.kind == kind,
        contribution.first_retry == 1,
        contribution.last_retry == 60,
        contribution.lease == 900,
        contribution.lease_renewal == 300,
        contribution.lease_renewal < contribution.lease,
        kind is Credentials ==> contribution.interval == 30 && contribution.owner@
            == "plugin-credentials"@,
        kind is Quota ==> contribution.interval == 300 && contribution.owner@ == "plugin-quota"@,
        kind is Models ==> contribution.interval == 300 && contribution.owner@ == "plugin-models"@,
        kind is RequestProfiles ==> contribution.interval == 3600 && contribution.owner@
            == "plugin-request-profiles"@,
{
}

impl PluginMaintenanceTask {
    /// What planning a round does: who is served takes turns, and what is noted of others is forgotten.
    pub open spec fn plans(
        &self,
        before: &Self,
        entries: Seq<MaintenanceEntry>,
        instances: Seq<PluginInstance>,
        order: Seq<usize>,
    ) -> bool {
        &&& self.last_instance == before.last_instance
        &&& forall|instance: Seq<char>, revision: u64| #[trigger]
            cursor_of(self.cursors@, instance, revision) == (if is_served(
                entries,
                instances,
                instance,
                revision,
            ) {
                cursor_of(before.cursors@, instance, revision)
            } else {
                None
            })
        &&& exists|start: int| #[trigger]
            is_start(entries, served(entries, instances), before.last_instance, start) && 0 <= start
                <= served(entries, instances).len() && order == rotated(
                served(entries, instances),
                start,
            )
    }

    /// How far an instance has come, if that is noted.
    pub open spec fn position(&self, instance: Seq<char>, revision: u64) -> Option<Seq<char>> {
        match cursor_of(self.cursors@, instance, revision) {
            Some(after) => after,
            None => None,
        }
    }

    /// What noting how far an instance has come does.
    pub open spec fn notes(
        &self,
        before: &Self,
        entry: MaintenanceEntry,
        after: Option<Seq<char>>,
    ) -> bool {
        &&& self.last_instance == before.last_instance
        &&& forall|instance: Seq<char>, revision: u64| #[trigger]
            cursor_of(self.cursors@, instance, revision) == (if instance == entry.instance_id@
                && revision == entry.revision {
                Some(after)
            } else {
                cursor_of(before.cursors@, instance, revision)
            })
    }
}

/// What the work on an account comes to: that somebody else changed it meanwhile is no failure.
pub open spec fn outcome_of(result: Result<(), ProviderAdminError>) -> Result<(), WorkerFailure> {
    match result {
        Ok(()) => Ok::<(), WorkerFailure>(()),
        Err(error) => if error.kind == ProviderAdminErrorKind::Conflict {
            Ok(())
        } else {
            Err(WorkerFailure::Provider(error.kind))
        },
    }
}

/// What is noted of an instance is read back in the rounds after, as long as the instance is served;
/// nothing that is noted of one changes what is noted of another.
pub proof fn noted_is_read_back(
    before: PluginMaintenanceTask,
    noted: PluginMaintenanceTask,
    planned: PluginMaintenanceTask,
    entry: MaintenanceEntry,
    after: Option<Seq<char>>,
    entries: Seq<MaintenanceEntry>,
    instances: Seq<PluginInstance>,
    order: Seq<usize>,
    instance: Seq<char>,
    revision: u64,
)
    requires
        noted.notes(&before, entry, after),
        planned.plans(&noted, entries, instances, order),
    ensures
        noted.position(entry.instance_id@, entry.revision) == after,
        instance != entry.instance_id@ || revision != entry.revision ==> noted.position(
            instance,
            revision,
        ) == before.position(instance, revision),
        is_served(entries, instances, instance, revision) ==> planned.position(instance, revision)
            == noted.position(instance, revision),
        !is_served(entries, instances, instance, revision) ==> planned.position(instance, revision)
            is None,
        noted.last_instance == before.last_instance,
        planned.last_instance == before.last_instance,
{
    assert(cursor_of(noted.cursors@, entry.instance_id@, entry.revision) == Some(after));
    assert(cursor_of(noted.cursors@, instance, revision) == (if instance == entry.instance_id@
        && revision == entry.revision {
        Some(after)
    } else {
        cursor_of(before.cursors@, instance, revision)
    }));
    assert(cursor_of(planned.cursors@, instance, revision) == (if is_served(
        entries,
        instances,
        instance,
        revision,
    ) {
        cursor_of(noted.cursors@, instance, revision)
    } else {
        None
    }));
}

/// In every round each instance that is served has its turn, once.
pub proof fn everybody_has_a_turn(
    before: PluginMaintenanceTask,
    planned: PluginMaintenanceTask,
    entries: Seq<MaintenanceEntry>,
    instances: Seq<PluginInstance>,
    order: Seq<usize>,
    place: usize,
)
    requires
        entries.len() <= usize::MAX,
        planned.plans(&before, entries, instances, order),
        place < entries.len(),
        entries[place as int].supported,
        is_current(entries[place as int], instances),
    ensures
        order.contains(place),
        order.len() == served(entries, instances).len(),
{
    let start = choose|start: int| #[trigger]
        is_start(entries, served(entries, instances), before.last_instance, start) && 0 <= start
            <= served(entries, instances).len() && order == rotated(
            served(entries, instances),
            start,
        );
    rounds_leave_nobody_out(entries, instances, start, place);
}

/// Work on an account fails with what the provider reports, unless that is a conflict.
pub proof fn conflicts_are_no_failures(result: Result<(), ProviderAdminError>)
    ensures
        outcome_of(result) is Ok <==> (result matches Err(error) ==> error.kind is Conflict),
        outcome_of(result) matches Err(failure) ==> (result matches Err(error) && failure
            == WorkerFailure::Provider(error.kind)),
{
}

} // verus!
