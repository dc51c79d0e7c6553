//! Lists of named values, read as tables in which a later entry replaces an earlier one.

use vstd::prelude::*;

use crate::text::same;

verus! {

/// The table that a list of named values stands for.
pub open spec fn table<T>(entries: Seq<(String, T)>) -> Map<Seq<char>, T>
    decreases entries.len(),
{
    if entries.len() == 0 {
        Map::empty()
    } else {
        table(entries.drop_last()).insert(entries.last().0@, entries.last().1)
    }
}

/// The value under a name, where there is one.
pub open spec fn entry<T>(entries: Seq<(String, T)>, name: Seq<char>) -> Option<T> {
    if table(entries).contains_key(name) {
        Some(table(entries)[name])
    } else {
        None
    }
}

/// The last entry of a name is what the table holds under it.
pub proof fn lemma_table_entry<T>(entries: Seq<(String, T)>, k: int)
    requires
        0 <= k < entries.len(),
        forall|j: int| k < j < entries.len() ==> (#[trigger] entries[j]).0@ != entries[k].0@,
    ensures
        table(entries).contains_key(entries[k].0@),
        table(entries)[entries[k].0@] == entries[k].1,
    decreases entries.len(),
{
    if k < entries.len() - 1 {
        let front = entries.drop_last();
        assert forall|j: int| k < j < front.len() implies (#[trigger] front[j]).0@
            != front[k].0@ by {
            assert(front[j] == entries[j]);
        }
        lemma_table_entry(front, k);
        assert(entries[entries.len() - 1].0@ != entries[k].0@);
    }
}

/// The names of the table are the names of the entries.
pub proof fn lemma_table_names<T>(entries: Seq<(String, T)>, name: Seq<char>)
    ensures
        table(entries).contains_key(name) <==> exists|i: int|
            0 <= i < entries.len() && (#[trigger] entries[i]).0@ == name,
    decreases entries.len(),
{
    if entries.len() > 0 {
        let front = entries.drop_last();
        lemma_table_names(front, name);
        if table(front).contains_key(name) {
            let i = choose|i: int| 0 <= i < front.len() && (#[trigger] front[i]).0@ == name;
            assert(entries[i].0@ == name);
        }
        if exists|i: int| 0 <= i < entries.len() && (#[trigger] entries[i]).0@ == name {
            let i = choose|i: int| 0 <= i < entries.len() && (#[trigger] entries[i]).0@ == name;
            if i < front.len() {
                assert(front[i].0@ == name);
            }
        }
        assert(entries[entries.len() - 1] == entries.last());
    }
}

/// The place of the entry that counts under a name.
pub fn find<T>(entries: &Vec<(String, T)>, name: &str) -> (place: Option<usize>)
    ensures
        place is Some == table(entries@).contains_key(name@),
        place matches Some(k) ==> k < entries@.len() && entries@[k as int].0@ == name@
            && entries@[k as int].1 == table(entries@)[name@],
        place matches Some(k) ==> entry(entries@, name@) == Some(entries@[k as int].1),
        place is None ==> entry(entries@, name@) is None,
{
    let mut k: usize = entries.len();
    while k > 0
        invariant
            k <= entries@.len(),
            forall|j: int| k <= j < entries@.len() ==> (#[trigger] entries@[j]).0@ != name@,
        decreases k,
    {
        k = k - 1;
        if same(entries[k].0.as_str(), name) {
            proof {
                lemma_table_entry(entries@, k as int);
            }
            return Some(k);
        }
    }
    proof {
        lemma_table_names(entries@, name@);
    }
    None
}

} // verus!
