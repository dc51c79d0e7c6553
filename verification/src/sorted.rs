//! Tables that are kept in the order of their names.

use vstd::prelude::*;

use crate::table::{lemma_table_entry, lemma_table_names, table};
use crate::text::{
    before, is_ascending, lemma_ascending_is_distinct, lemma_text_inserted, text_less,
};

verus! {

/// A table of named values, in the order of the names' bytes.
pub struct SortedTable<T> {
    entries: Vec<(String, T)>,
}

/// Entries and a table agree: the entries are in rising order, each entry is what the table holds
/// under its name, each name of the table is that of an entry, and no name occurs twice.
pub open spec fn agree<T>(items: Seq<(String, T)>, held: Map<Seq<char>, T>) -> bool {
    &&& is_ascending(names(items))
    &&& forall|i: int|
        0 <= i < items.len() ==> held.contains_key((#[trigger] items[i]).0@) && held[items[i].0@]
            == items[i].1
    &&& forall|name: Seq<char>| #[trigger]
        held.contains_key(name) ==> exists|i: int|
            0 <= i < items.len() && (#[trigger] items[i]).0@ == name
    &&& forall|i: int, j: int|
        0 <= i < j < items.len() ==> (#[trigger] items[i]).0@ != (#[trigger] items[j]).0@
    &&& held.dom().finite()
    &&& held.dom().len() == items.len()
}

/// The names of a list of entries.
pub open spec fn names<T>(entries: Seq<(String, T)>) -> Seq<Seq<char>> {
    Seq::new(entries.len(), |i: int| entries[i].0@)
}

impl<T> View for SortedTable<T> {
    type V = Map<Seq<char>, T>;

    closed spec fn view(&self) -> Map<Seq<char>, T> {
        table(self.entries@)
    }
}

impl<T> SortedTable<T> {
    /// The entries, in order.
    pub closed spec fn items(&self) -> Seq<(String, T)> {
        self.entries@
    }

    /// The entries are in rising order.
    pub closed spec fn well_formed(&self) -> bool {
        is_ascending(names(self.entries@))
    }

    /// The entries of a table agree with it.
    pub proof fn lemma_items(&self)
        requires
            self.well_formed(),
        ensures
            agree(self.items(), self@),
    {
        lemma_entries(self.entries@);
    }

    pub fn new() -> (sorted: Self)
        ensures
            sorted@ == Map::<Seq<char>, T>::empty(),
            sorted.items() == Seq::<(String, T)>::empty(),
            sorted.well_formed(),
    {
        SortedTable { entries: Vec::new() }
    }

    /// How many entries there are.
    pub fn len(&self) -> (n: usize)
        ensures
            n == self.items().len(),
    {
        self.entries.len()
    }

    /// The entry at a place.
    pub fn at(&self, i: usize) -> (item: &(String, T))
        requires
            i < self.items().len(),
        ensures
            *item == self.items()[i as int],
    {
        &self.entries[i]
    }

    /// The place of a name.
    pub fn place(&self, name: &str) -> (place: Option<usize>)
        ensures
            place is Some == self@.contains_key(name@),
            place matches Some(k) ==> k < self.items().len() && self.items()[k as int].0@ == name@
                && self.items()[k as int].1 == self@[name@],
    {
        crate::table::find(&self.entries, name)
    }

    pub fn get(&self, name: &str) -> (value: Option<&T>)
        ensures
            value is Some == self@.contains_key(name@),
            value matches Some(v) ==> *v == self@[name@],
    {
        match self.place(name) {
            Some(k) => Some(&self.entries[k].1),
            None => None,
        }
    }

    /// Takes out the entry at a place.
    pub fn take(&mut self, i: usize) -> (item: (String, T))
        requires
            old(self).well_formed(),
            i < old(self).items().len(),
        ensures
            final(self).well_formed(),
            item == old(self).items()[i as int],
            final(self).items() == old(self).items().remove(i as int),
            final(self)@ == old(self)@.remove(item.0@),
    {
        proof {
            lemma_removed(self.entries@, i as int);
        }
        self.entries.remove(i)
    }

    /// Takes out the value under a name.
    pub fn remove(&mut self, name: &str) -> (value: Option<T>)
        requires
            old(self).well_formed(),
        ensures
            final(self).well_formed(),
            final(self)@ == old(self)@.remove(name@),
            value is Some == old(self)@.contains_key(name@),
            value matches Some(v) ==> v == old(self)@[name@],
            forall|i: int|
                0 <= i < final(self).items().len() ==> old(self).items().contains(
                    #[trigger] final(self).items()[i],
                ),
            value is None ==> final(self).items() == old(self).items(),
            value is Some ==> final(self).items().len() == old(self).items().len() - 1,
    {
        match self.place(name) {
            Some(k) => {
                let ghost before = self.entries@;
                let (_, value) = self.take(k);
                proof {
                    assert forall|i: int| 0 <= i < self.entries@.len() implies before.contains(
                        #[trigger] self.entries@[i],
                    ) by {
                        let source = if i < k { i } else { i + 1 };
                        assert(before[source] == self.entries@[i]);
                    }
                }
                Some(value)
            },
            None => {
                proof {
                    assert(self@.remove(name@) =~= self@);
                }
                None
            },
        }
    }

    /// Puts a value under a name, in place of what stood there.
    pub fn insert(&mut self, name: String, value: T)
        requires
            old(self).well_formed(),
        ensures
            final(self).well_formed(),
            final(self)@ == old(self)@.insert(name@, value),
            !old(self)@.contains_key(name@) ==> exists|k: int|
                0 <= k <= old(self).items().len() && final(self).items()
                    == #[trigger] old(self).items().insert(k, (name, value)),
    {
        let _ = self.remove(name.as_str());
        proof {
            assert(old(self)@.remove(name@).insert(name@, value) =~= old(self)@.insert(
                name@,
                value,
            ));
            lemma_table_names(self.entries@, name@);
        }
        let mut at: usize = 0;
        while at < self.entries.len() && before(self.entries[at].0.as_str(), name.as_str())
            invariant
                at <= self.entries@.len(),
                forall|j: int| 0 <= j < at ==> text_less((#[trigger] self.entries@[j]).0@, name@),
            decreases self.entries@.len() - at,
        {
            at = at + 1;
        }
        proof {
            let current = self.entries@;
            assert forall|j: int| 0 <= j < at implies text_less(
                #[trigger] names(current)[j],
                name@,
            ) by {
                assert(text_less(current[j].0@, name@));
            }
            if at < current.len() {
                assert(current[at as int].0@ != name@);
            }
            lemma_text_inserted(names(current), at as int, name@);
            assert(names(current.insert(at as int, (name, value))) =~= names(current).insert(
                at as int,
                name@,
            ));
            lemma_inserted(current, at as int, name, value);
        }
        self.entries.insert(at, (name, value));
    }
}

/// The items whose flag is the wanted one, in order.
pub open spec fn picked<A>(items: Seq<A>, flags: Seq<bool>, wanted: bool) -> Seq<A>
    decreases items.len(),
{
    if items.len() == 0 || flags.len() != items.len() {
        Seq::empty()
    } else if flags.last() == wanted {
        picked(items.drop_last(), flags.drop_last(), wanted).push(items.last())
    } else {
        picked(items.drop_last(), flags.drop_last(), wanted)
    }
}

/// The picked items are exactly those whose flag is the wanted one.
pub proof fn lemma_picked<A>(items: Seq<A>, flags: Seq<bool>, wanted: bool)
    requires
        flags.len() == items.len(),
    ensures
        forall|k: int|
            0 <= k < picked(items, flags, wanted).len() ==> exists|i: int|
                0 <= i < items.len() && flags[i] == wanted && #[trigger] items[i] == #[trigger] picked(
                    items,
                    flags,
                    wanted,
                )[k],
        forall|i: int|
            0 <= i < items.len() && flags[i] == wanted ==> picked(items, flags, wanted).contains(
                #[trigger] items[i],
            ),
        picked(items, flags, wanted).len() <= items.len(),
    decreases items.len(),
{
    if items.len() > 0 {
        let front = items.drop_last();
        let front_flags = flags.drop_last();
        lemma_picked(front, front_flags, wanted);
        let before = picked(front, front_flags, wanted);
        let whole = picked(items, flags, wanted);
        assert forall|k: int| 0 <= k < whole.len() implies exists|i: int|
            0 <= i < items.len() && flags[i] == wanted && #[trigger] items[i]
                == #[trigger] whole[k] by {
            if k < before.len() {
                assert(whole[k] == before[k]);
                let i = choose|i: int|
                    0 <= i < front.len() && front_flags[i] == wanted && #[trigger] front[i]
                        == before[k];
                assert(items[i] == front[i] && flags[i] == front_flags[i]);
            } else {
                assert(whole[k] == items[items.len() - 1]);
            }
        }
        assert forall|i: int| 0 <= i < items.len() && flags[i] == wanted implies whole.contains(
            #[trigger] items[i],
        ) by {
            if i < front.len() {
                assert(front[i] == items[i] && front_flags[i] == flags[i]);
                assert(before.contains(front[i]));
                let k = choose|k: int| 0 <= k < before.len() && before[k] == front[i];
                assert(whole[k] == items[i]);
            } else {
                assert(whole[whole.len() - 1] == items[i]);
            }
        }
    }
}

/// Picked entries stay in rising order.
proof fn lemma_picked_ascending<T>(entries: Seq<(String, T)>, flags: Seq<bool>, wanted: bool)
    requires
        is_ascending(names(entries)),
        flags.len() == entries.len(),
    ensures
        is_ascending(names(picked(entries, flags, wanted))),
    decreases entries.len(),
{
    if entries.len() > 0 {
        let front = entries.drop_last();
        let front_flags = flags.drop_last();
        assert forall|i: int, j: int| 0 <= i < j < names(front).len() implies text_less(
            #[trigger] names(front)[i],
            #[trigger] names(front)[j],
        ) by {
            assert(text_less(names(entries)[i], names(entries)[j]));
        }
        lemma_picked_ascending(front, front_flags, wanted);
        lemma_picked(front, front_flags, wanted);
        let before = picked(front, front_flags, wanted);
        let whole = picked(entries, flags, wanted);
        assert forall|i: int, j: int| 0 <= i < j < names(whole).len() implies text_less(
            #[trigger] names(whole)[i],
            #[trigger] names(whole)[j],
        ) by {
            if j < before.len() {
                assert(text_less(names(before)[i], names(before)[j]));
            } else {
                assert(whole[i] == before[i]);
                let a = choose|a: int|
                    0 <= a < front.len() && front_flags[a] == wanted && #[trigger] front[a]
                        == before[i];
                assert(text_less(names(entries)[a], names(entries)[entries.len() - 1]));
            }
        }
    }
}

/// A name is that of an entry whose flag is set.
pub open spec fn is_flagged<T>(
    items: Seq<(String, T)>,
    flags: Seq<bool>,
    name: Seq<char>,
) -> bool {
    exists|i: int| 0 <= i < items.len() && flags[i] && (#[trigger] items[i]).0@ == name
}

impl<T> SortedTable<T> {
    /// Keeps the entries whose flag is set, and hands the others out.
    pub fn partition(&mut self, flags: &Vec<bool>) -> (removed: Vec<(String, T)>)
        requires
            old(self).well_formed(),
            flags@.len() == old(self).items().len(),
        ensures
            final(self).well_formed(),
            final(self).items() == picked(old(self).items(), flags@, true),
            removed@ == picked(old(self).items(), flags@, false),
            forall|name: Seq<char>| #[trigger]
                final(self)@.contains_key(name) <==> is_flagged(old(self).items(), flags@, name),
            forall|name: Seq<char>| #[trigger]
                final(self)@.contains_key(name) ==> old(self)@.contains_key(name) && final(self)@[name]
                    == old(self)@[name],
    {
        let ghost start = self.entries@;
        let mut rest: Vec<(String, T)> = Vec::new();
        rest.append(&mut self.entries);
        assert(rest@ =~= start);
        let mut kept: Vec<(String, T)> = Vec::new();
        let mut removed: Vec<(String, T)> = Vec::new();
        let total = rest.len();
        let mut i: usize = 0;
        while i < total
            invariant
                i <= total,
                total == start.len(),
                flags@.len() == total,
                rest@ == start.skip(i as int),
                kept@ == picked(start.take(i as int), flags@.take(i as int), true),
                removed@ == picked(start.take(i as int), flags@.take(i as int), false),
            decreases total - i,
        {
            let item = rest.remove(0);
            proof {
                assert(item == start[i as int]);
                assert(rest@ =~= start.skip(i + 1));
                assert(start.take(i + 1).drop_last() =~= start.take(i as int));
                assert(flags@.take(i + 1).drop_last() =~= flags@.take(i as int));
                assert(start.take(i + 1).last() == item);
                assert(flags@.take(i + 1).last() == flags@[i as int]);
            }
            if flags[i] {
                kept.push(item);
            } else {
                removed.push(item);
            }
            i = i + 1;
        }
        self.entries = kept;
        proof {
            assert(start.take(total as int) =~= start);
            assert(flags@.take(total as int) =~= flags@);
            lemma_picked_ascending(start, flags@, true);
            lemma_picked(start, flags@, true);
            lemma_entries(start);
            lemma_entries(self.entries@);
            let left = self.entries@;
            assert forall|name: Seq<char>| #[trigger] self@.contains_key(name) implies is_flagged(
                start,
                flags@,
                name,
            ) && table(start).contains_key(name) && self@[name] == table(start)[name] by {
                let k = choose|k: int| 0 <= k < left.len() && (#[trigger] left[k]).0@ == name;
                let a = choose|a: int|
                    0 <= a < start.len() && flags@[a] == true && #[trigger] start[a] == left[k];
                assert(start[a].0@ == name);
            }
            assert forall|name: Seq<char>| is_flagged(start, flags@, name) implies
                #[trigger] self@.contains_key(name) by {
                let a = choose|a: int|
                    0 <= a < start.len() && flags@[a] && (#[trigger] start[a]).0@ == name;
                assert(left.contains(start[a]));
                let k = choose|k: int| 0 <= k < left.len() && left[k] == start[a];
                assert(left[k].0@ == name);
            }
        }
        removed
    }
}

/// What holds of entries in rising order.
proof fn lemma_entries<T>(entries: Seq<(String, T)>)
    requires
        is_ascending(names(entries)),
    ensures
        agree(entries, table(entries)),
    decreases entries.len(),
{
    lemma_ascending_is_distinct(names(entries));
    assert forall|i: int, j: int| 0 <= i < j < entries.len() implies (#[trigger] entries[i]).0@ != (
    #[trigger] entries[j]).0@ by {
        assert(names(entries)[i] != names(entries)[j]);
    }
    assert forall|i: int| 0 <= i < entries.len() implies table(entries).contains_key(
        (#[trigger] entries[i]).0@,
    ) && table(entries)[entries[i].0@] == entries[i].1 by {
        lemma_table_entry(entries, i);
    }
    assert forall|name: Seq<char>| #[trigger] table(entries).contains_key(name) implies exists|i: int|
        0 <= i < entries.len() && (#[trigger] entries[i]).0@ == name by {
        lemma_table_names(entries, name);
    }
    if entries.len() > 0 {
        let front = entries.drop_last();
        assert forall|i: int, j: int| 0 <= i < j < names(front).len() implies text_less(
            #[trigger] names(front)[i],
            #[trigger] names(front)[j],
        ) by {
            assert(text_less(names(entries)[i], names(entries)[j]));
        }
        lemma_entries(front);
        lemma_table_names(front, entries.last().0@);
        assert(!table(front).contains_key(entries.last().0@));
        assert(table(entries).dom() =~= table(front).dom().insert(entries.last().0@));
    }
}

/// The table without the entry at a place.
proof fn lemma_removed<T>(entries: Seq<(String, T)>, k: int)
    requires
        is_ascending(names(entries)),
        0 <= k < entries.len(),
    ensures
        is_ascending(names(entries.remove(k))),
        table(entries.remove(k)) == table(entries).remove(entries[k].0@),
{
    let left = entries.remove(k);
    assert forall|i: int, j: int| 0 <= i < j < names(left).len() implies text_less(
        #[trigger] names(left)[i],
        #[trigger] names(left)[j],
    ) by {
        let a = if i < k { i } else { i + 1 };
        let b = if j < k { j } else { j + 1 };
        assert(text_less(names(entries)[a], names(entries)[b]));
    }
    lemma_entries(entries);
    lemma_entries(left);
    let whole = table(entries).remove(entries[k].0@);
    assert forall|name: Seq<char>| #[trigger] table(left).dom().contains(name) implies whole.contains_key(
        name,
    ) && table(left)[name] == whole[name] by {
        assert(table(left).contains_key(name));
        let i = choose|i: int| 0 <= i < left.len() && (#[trigger] left[i]).0@ == name;
        let a = if i < k { i } else { i + 1 };
        assert(left[i] == entries[a]);
        assert(entries[a].0@ != entries[k].0@);
    }
    assert forall|name: Seq<char>| #[trigger] whole.dom().contains(name) implies table(
        left,
    ).contains_key(name) by {
        assert(table(entries).contains_key(name));
        let a = choose|a: int| 0 <= a < entries.len() && (#[trigger] entries[a]).0@ == name;
        let i = if a < k { a } else { a - 1 };
        assert(left[i] == entries[a]);
    }
    assert(table(left).dom() =~= whole.dom());
    assert(table(left) =~= whole);
}

/// The table with an entry put in where it belongs.
proof fn lemma_inserted<T>(entries: Seq<(String, T)>, at: int, name: String, value: T)
    requires
        is_ascending(names(entries)),
        is_ascending(names(entries.insert(at, (name, value)))),
        0 <= at <= entries.len(),
        !table(entries).contains_key(name@),
    ensures
        table(entries.insert(at, (name, value))) == table(entries).insert(name@, value),
{
    let next = entries.insert(at, (name, value));
    lemma_entries(entries);
    lemma_entries(next);
    let whole = table(entries).insert(name@, value);
    assert(next[at] == (name, value));
    assert forall|n: Seq<char>| #[trigger] table(next).dom().contains(n) implies whole.contains_key(
        n,
    ) && table(next)[n] == whole[n] by {
        assert(table(next).contains_key(n));
        let i = choose|i: int| 0 <= i < next.len() && (#[trigger] next[i]).0@ == n;
        if i != at {
            let a = if i < at { i } else { i - 1 };
            assert(next[i] == entries[a]);
            assert(next[at].0@ != n);
        }
    }
    assert forall|n: Seq<char>| #[trigger] whole.dom().contains(n) implies table(next).contains_key(
        n,
    ) by {
        if n == name@ {
            assert(next[at].0@ == n);
        } else {
            assert(table(entries).contains_key(n));
            let a = choose|a: int| 0 <= a < entries.len() && (#[trigger] entries[a]).0@ == n;
            let i = if a < at { a } else { a + 1 };
            assert(next[i] == entries[a]);
        }
    }
    assert(table(next).dom() =~= whole.dom());
    assert(table(next) =~= whole);
}

/// What is picked of two lists is what is picked of the one and then of the other.
pub proof fn picked_in_order<A>(
    a: Seq<A>,
    b: Seq<A>,
    flags_a: Seq<bool>,
    flags_b: Seq<bool>,
    wanted: bool,
)
    requires
        flags_a.len() == a.len(),
        flags_b.len() == b.len(),
    ensures
        picked(a + b, flags_a + flags_b, wanted) == picked(a, flags_a, wanted) + picked(
            b,
            flags_b,
            wanted,
        ),
        a.len() == 1 && flags_a[0] == wanted ==> picked(a, flags_a, wanted) == a,
        a.len() == 1 && flags_a[0] != wanted ==> picked(a, flags_a, wanted).len() == 0,
    decreases b.len(),
{
    reveal_with_fuel(picked, 2);
    if b.len() == 0 {
        assert(a + b =~= a);
        assert(flags_a + flags_b =~= flags_a);
        assert(picked(a, flags_a, wanted) + picked(b, flags_b, wanted) =~= picked(
            a,
            flags_a,
            wanted,
        ));
    } else {
        picked_in_order(a, b.drop_last(), flags_a, flags_b.drop_last(), wanted);
        assert((a + b).drop_last() =~= a + b.drop_last());
        assert((flags_a + flags_b).drop_last() =~= flags_a + flags_b.drop_last());
        assert((a + b).last() == b.last());
        assert((flags_a + flags_b).last() == flags_b.last());
        assert(picked(a + b, flags_a + flags_b, wanted) =~= picked(a, flags_a, wanted) + picked(
            b,
            flags_b,
            wanted,
        ));
    }
    if a.len() == 1 {
        assert(a.drop_last() =~= Seq::<A>::empty());
        assert(flags_a.last() == flags_a[0]);
        if flags_a[0] == wanted {
            assert(picked(a, flags_a, wanted) =~= a);
        }
    }
}

} // verus!
