//! Lists of named values, in the order in which the names were first set.
use vstd::prelude::*;

use crate::text::same;

verus! {

/// Position of the first entry that is named `key`, or the number of entries when
/// there is none.
pub open spec fn slot<T>(entries: Seq<(Seq<char>, T)>, key: Seq<char>) -> int
    decreases entries.len(),
{
    if entries.len() == 0 || entries[0].0 == key {
        0
    } else {
        1 + slot(entries.drop_first(), key)
    }
}

/// The value named `key`.
pub open spec fn lookup<T>(entries: Seq<(Seq<char>, T)>, key: Seq<char>) -> Option<T> {
    if slot(entries, key) < entries.len() {
        Some(entries[slot(entries, key)].1)
    } else {
        None
    }
}

/// The list with `key` set to `value`: in the place of the entry that had the
/// name, or at the end.
pub open spec fn put<T>(entries: Seq<(Seq<char>, T)>, key: Seq<char>, value: T) -> Seq<
    (Seq<char>, T),
> {
    if slot(entries, key) < entries.len() {
        entries.update(slot(entries, key), (key, value))
    } else {
        entries.push((key, value))
    }
}

pub proof fn lemma_slot_bounds<T>(entries: Seq<(Seq<char>, T)>, key: Seq<char>)
    ensures
        0 <= slot(entries, key) <= entries.len(),
        slot(entries, key) < entries.len() ==> entries[slot(entries, key)].0 == key,
    decreases entries.len(),
{
    if entries.len() != 0 && entries[0].0 != key {
        lemma_slot_bounds(entries.drop_first(), key);
    }
}

/// What was set is read back.
pub proof fn what_was_set_is_read_back<T>(
    entries: Seq<(Seq<char>, T)>,
    key: Seq<char>,
    value: T,
)
    ensures
        lookup(put(entries, key, value), key) == Some(value),
    decreases entries.len(),
{
    let after = put(entries, key, value);
    lemma_slot_bounds(entries, key);
    if entries.len() == 0 {
        assert(after =~= seq![(key, value)]);
    } else if entries[0].0 == key {
        assert(after =~= entries.update(0, (key, value)));
    } else {
        let rest = entries.drop_first();
        what_was_set_is_read_back(rest, key, value);
        lemma_slot_bounds(rest, key);
        lemma_slot_bounds(put(rest, key, value), key);
        assert(after.drop_first() =~= put(rest, key, value));
    }
}

/// Setting one name leaves every other as it was.
pub proof fn setting_a_name_leaves_the_others<T>(
    entries: Seq<(Seq<char>, T)>,
    key: Seq<char>,
    value: T,
    other: Seq<char>,
)
    requires
        other != key,
    ensures
        lookup(put(entries, key, value), other) == lookup(entries, other),
    decreases entries.len(),
{
    let after = put(entries, key, value);
    lemma_slot_bounds(entries, key);
    if entries.len() == 0 {
        reveal_with_fuel(slot, 2);
    } else {
        let rest = entries.drop_first();
        setting_a_name_leaves_the_others(rest, key, value, other);
        lemma_slot_bounds(rest, key);
        lemma_slot_bounds(rest, other);
        lemma_slot_bounds(put(rest, key, value), other);
        if entries[0].0 == key {
            assert(after.drop_first() =~= rest);
        } else {
            assert(after.drop_first() =~= put(rest, key, value));
        }
    }
}

/// Whether no name occurs twice.
pub open spec fn distinct_names<T>(entries: Seq<(Seq<char>, T)>) -> bool {
    forall|i: int, j: int|
        0 <= i < j < entries.len() ==> (#[trigger] entries[i]).0 != (#[trigger] entries[j]).0
}

/// Setting a name never makes it occur twice.
pub proof fn setting_keeps_names_distinct<T>(
    entries: Seq<(Seq<char>, T)>,
    key: Seq<char>,
    value: T,
)
    requires
        distinct_names(entries),
    ensures
        distinct_names(put(entries, key, value)),
{
    lemma_slot_bounds(entries, key);
    if slot(entries, key) == entries.len() {
        assert forall|i: int| 0 <= i < entries.len() implies (#[trigger] entries[i]).0 != key by {
            lemma_absent(entries, key, i);
        }
    }
}

proof fn lemma_absent<T>(entries: Seq<(Seq<char>, T)>, key: Seq<char>, i: int)
    requires
        slot(entries, key) == entries.len(),
        0 <= i < entries.len(),
    ensures
        entries[i].0 != key,
    decreases entries.len(),
{
    lemma_slot_bounds(entries.drop_first(), key);
    if i > 0 {
        lemma_absent(entries.drop_first(), key, i - 1);
    }
}

/// Values by name.
#[derive(Debug)]
pub struct Named<T> {
    pub entries: Vec<(String, T)>,
}

impl<T> Named<T> {
    pub open spec fn view(&self) -> Seq<(Seq<char>, T)> {
        self.entries@.map_values(|entry: (String, T)| (entry.0@, entry.1))
    }

    pub fn new() -> (list: Named<T>)
        ensures
            list@ == Seq::<(Seq<char>, T)>::empty(),
            list.entries@.len() == 0,
    {
        let list = Named { entries: Vec::new() };
        assert(list@ =~= Seq::<(Seq<char>, T)>::empty());
        list
    }

    /// Where the entry named `key` stands, or the number of entries when there is
    /// none.
    pub fn find(&self, key: &str) -> (at: usize)
        ensures
            at == slot(self@, key@),
            at <= self.entries@.len(),
            at < self.entries@.len() ==> self.entries@[at as int].0@ == key@,
    {
        let mut i: usize = 0;
        assert(self@.skip(0) =~= self@);
        while i < self.entries.len()
            invariant
                i <= self.entries@.len(),
                slot(self@, key@) == i + slot(self@.skip(i as int), key@),
            decreases self.entries.len() - i,
        {
            assert(self@.skip(i as int).drop_first() =~= self@.skip(i + 1));
            if same(self.entries[i].0.as_str(), key) {
                return i;
            }
            i = i + 1;
        }
        i
    }

    /// The value named `key`.
    pub fn get(&self, key: &str) -> (value: Option<&T>)
        ensures
            match value {
                Some(value) => lookup(self@, key@) == Some(*value),
                None => lookup(self@, key@) is None,
            },
    {
        let at: usize = self.find(key);
        if at < self.entries.len() {
            Some(&self.entries[at].1)
        } else {
            None
        }
    }

    /// Sets the value named `key`.
    pub fn insert(&mut self, key: &str, value: T)
        ensures
            final(self)@ == put(old(self)@, key@, value),
    {
        let at: usize = self.find(key);
        if at < self.entries.len() {
            self.entries[at] = (key.to_string(), value);
        } else {
            self.entries.push((key.to_string(), value));
        }
        assert(self@ =~= put(old(self)@, key@, value));
    }
}

/// The items listed under `key`.
pub open spec fn listed<A>(lists: Seq<(Seq<char>, Seq<A>)>, key: Seq<char>) -> Seq<A> {
    match lookup(lists, key) {
        Some(items) => items,
        None => Seq::empty(),
    }
}

impl<A> Named<Vec<A>> {
    /// What is listed under each name.
    pub open spec fn lists(&self) -> Seq<(Seq<char>, Seq<A>)> {
        self.entries@.map_values(|entry: (String, Vec<A>)| (entry.0@, entry.1@))
    }

    proof fn lemma_same_slots(&self, key: Seq<char>, from: int)
        requires
            0 <= from <= self.entries@.len(),
        ensures
            slot(self.lists().skip(from), key) == slot(self@.skip(from), key),
        decreases self.entries@.len() - from,
    {
        let lists = self.lists().skip(from);
        let values = self@.skip(from);
        if from < self.entries@.len() {
            self.lemma_same_slots(key, from + 1);
            assert(lists.drop_first() =~= self.lists().skip(from + 1));
            assert(values.drop_first() =~= self@.skip(from + 1));
        }
    }

    /// The list under `key`.
    pub fn get_list(&self, key: &str) -> (items: Option<&Vec<A>>)
        ensures
            match items {
                Some(items) => lookup(self.lists(), key@) == Some(items@),
                None => lookup(self.lists(), key@) is None,
            },
    {
        let at: usize = self.find(key);
        proof {
            self.lemma_same_slots(key@, 0);
            assert(self.lists().skip(0) =~= self.lists());
            assert(self@.skip(0) =~= self@);
        }
        if at < self.entries.len() {
            Some(&self.entries[at].1)
        } else {
            None
        }
    }

    /// Lists `item` under `key`, after what is listed there already.
    pub fn append(&mut self, key: &str, item: A)
        ensures
            final(self).lists() == put(
                old(self).lists(),
                key@,
                listed(old(self).lists(), key@).push(item),
            ),
    {
        let at: usize = self.find(key);
        proof {
            self.lemma_same_slots(key@, 0);
            assert(self.lists().skip(0) =~= self.lists());
            assert(self@.skip(0) =~= self@);
        }
        if at < self.entries.len() {
            self.entries[at].1.push(item);
        } else {
            let items = vec![item];
            assert(items@ =~= Seq::empty().push(item));
            self.entries.push((key.to_string(), items));
        }
        assert(self.lists() =~= put(
            old(self).lists(),
            key@,
            listed(old(self).lists(), key@).push(item),
        ));
    }

    /// Lists some items under `key`, after what is listed there already.
    pub fn extend(&mut self, key: &str, items: Vec<A>)
        ensures
            final(self).lists() == put(
                old(self).lists(),
                key@,
                listed(old(self).lists(), key@) + items@,
            ),
    {
        let at: usize = self.find(key);
        proof {
            self.lemma_same_slots(key@, 0);
            assert(self.lists().skip(0) =~= self.lists());
            assert(self@.skip(0) =~= self@);
        }
        if at < self.entries.len() {
            let mut items = items;
            self.entries[at].1.append(&mut items);
        } else {
            assert(items@ =~= Seq::empty() + items@);
            self.entries.push((key.to_string(), items));
        }
        assert(self.lists() =~= put(
            old(self).lists(),
            key@,
            listed(old(self).lists(), key@) + items@,
        ));
    }

    /// Sets the list under `key`.
    pub fn set_list(&mut self, key: &str, items: Vec<A>)
        ensures
            final(self).lists() == put(old(self).lists(), key@, items@),
    {
        let at: usize = self.find(key);
        proof {
            self.lemma_same_slots(key@, 0);
            assert(self.lists().skip(0) =~= self.lists());
            assert(self@.skip(0) =~= self@);
        }
        if at < self.entries.len() {
            self.entries[at] = (key.to_string(), items);
        } else {
            self.entries.push((key.to_string(), items));
        }
        assert(self.lists() =~= put(old(self).lists(), key@, items@));
    }

    /// Adds a list at the end, without looking for its name.
    pub fn push_list(&mut self, key: &str, items: Vec<A>)
        ensures
            final(self).lists() == old(self).lists().push((key@, items@)),
    {
        self.entries.push((key.to_string(), items));
        assert(self.lists() =~= old(self).lists().push((key@, items@)));
    }
}

}
