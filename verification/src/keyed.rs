//! A small table from texts to values.

use vstd::prelude::*;

verus! {

/// Values filed under texts, at most one under each.
#[derive(Debug, PartialEq, Eq)]
pub struct Keyed<T> {
    pub entries: Vec<(String, T)>,
}

/// Whether some entry is filed under `key`.
pub open spec fn has_key<T>(entries: Seq<(String, T)>, key: Seq<char>) -> bool {
    exists|i: int| 0 <= i < entries.len() && (#[trigger] entries[i]).0@ == key
}

/// The position of an entry that is filed under `key`.
pub open spec fn key_position<T>(entries: Seq<(String, T)>, key: Seq<char>) -> int {
    choose|i: int| 0 <= i < entries.len() && (#[trigger] entries[i]).0@ == key
}

/// The entries as a map.
pub open spec fn as_map<T>(entries: Seq<(String, T)>) -> Map<Seq<char>, T> {
    Map::new(
        |key: Seq<char>| has_key(entries, key),
        |key: Seq<char>| entries[key_position(entries, key)].1,
    )
}

/// Whether no two entries are filed under the same text.
pub open spec fn keys_differ<T>(entries: Seq<(String, T)>) -> bool {
    forall|i: int, j: int|
        0 <= i < j < entries.len() ==> (#[trigger] entries[i]).0@ != (#[trigger] entries[j]).0@
}

impl<T> View for Keyed<T> {
    type V = Map<Seq<char>, T>;

    open spec fn view(&self) -> Map<Seq<char>, T> {
        as_map(self.entries@)
    }
}

proof fn entry_is_mapped<T>(entries: Seq<(String, T)>, at: int)
    requires
        keys_differ(entries),
        0 <= at < entries.len(),
    ensures
        as_map(entries).dom().contains(entries[at].0@),
        as_map(entries)[entries[at].0@] == entries[at].1,
{
    let key = entries[at].0@;
    assert(has_key(entries, key));
    let found = key_position(entries, key);
    if found < at {
        assert(entries[found].0@ != entries[at].0@);
    } else if at < found {
        assert(entries[at].0@ != entries[found].0@);
    }
}

impl<T> Keyed<T> {
    /// Whether no two entries are filed under the same text.
    pub open spec fn well_formed(&self) -> bool {
        keys_differ(self.entries@)
    }

    /// An empty table.
    pub fn new() -> (table: Keyed<T>)
        ensures
            table.well_formed(),
            table@ == Map::<Seq<char>, T>::empty(),
    {
        let table = Keyed { entries: Vec::new() };
        proof {
            assert(table@ =~= Map::<Seq<char>, T>::empty());
        }
        table
    }

    /// Whether the table is empty.
    pub fn is_empty(&self) -> (empty: bool)
        ensures
            empty == (self@ == Map::<Seq<char>, T>::empty()),
    {
        proof {
            if self.entries.len() == 0 {
                assert(self@ =~= Map::<Seq<char>, T>::empty());
            } else {
                assert(has_key(self.entries@, self.entries@[0].0@));
                assert(self@.dom().contains(self.entries@[0].0@));
            }
        }
        self.entries.len() == 0
    }

    /// The position of the entry under `key`.
    fn position(&self, key: &str) -> (found: Option<usize>)
        ensures
            match found {
                Some(at) => at < self.entries.len() && self.entries@[at as int].0@ == key@,
                None => !has_key(self.entries@, key@),
            },
    {
        let mut at: usize = 0;
        while at < self.entries.len()
            invariant
                at <= self.entries.len(),
                forall|i: int| 0 <= i < at ==> (#[trigger] self.entries@[i]).0@ != key@,
            decreases self.entries.len() - at,
        {
            if crate::text::same_text(&self.entries[at].0, key) {
                return Some(at);
            }
            at += 1;
        }
        None
    }

    /// Whether something is filed under `key`.
    pub fn contains(&self, key: &str) -> (found: bool)
        ensures
            found == self@.dom().contains(key@),
    {
        match self.position(key) {
            Some(at) => {
                proof {
                    assert(has_key(self.entries@, key@));
                }
                true
            },
            None => false,
        }
    }

    /// What is filed under `key`.
    pub fn get(&self, key: &str) -> (value: Option<&T>)
        requires
            self.well_formed(),
        ensures
            match value {
                Some(value) => self@.dom().contains(key@) && *value == self@[key@],
                None => !self@.dom().contains(key@),
            },
    {
        match self.position(key) {
            Some(at) => {
                proof {
                    entry_is_mapped(self.entries@, at as int);
                }
                Some(&self.entries[at].1)
            },
            None => None,
        }
    }

    /// Files `value` under `key`, in place of what was there.
    pub fn insert(&mut self, key: String, value: T)
        requires
            old(self).well_formed(),
        ensures
            final(self).well_formed(),
            final(self)@ == old(self)@.insert(key@, value),
    {
        let ghost before = self.entries@;
        let ghost name = key@;
        match self.position(&key) {
            Some(at) => {
                self.entries.set(at, (key, value));
                proof {
                    let after = self.entries@;
                    assert forall|i: int, j: int| 0 <= i < j < after.len() implies (
                    #[trigger] after[i]).0@ != (#[trigger] after[j]).0@ by {
                        assert(after[i].0@ == before[i].0@);
                        assert(after[j].0@ == before[j].0@);
                    }
                    assert forall|other: Seq<char>| has_key(after, other) == (has_key(before, other)
                        || other == name) by {
                        if has_key(before, other) {
                            let i = key_position(before, other);
                            assert(after[i].0@ == other);
                        }
                        if other == name {
                            assert(after[at as int].0@ == other);
                        }
                        if has_key(after, other) {
                            let i = key_position(after, other);
                            assert(before[i].0@ == other);
                        }
                    }
                    assert forall|other: Seq<char>| has_key(after, other) implies as_map(
                        after,
                    )[other] == as_map(before).insert(name, value)[other] by {
                        let i = key_position(after, other);
                        entry_is_mapped(after, i);
                        if other != name {
                            assert(before[i] == after[i]);
                            entry_is_mapped(before, i);
                        } else if i != at {
                            assert(after[i].0@ != after[at as int].0@);
                        }
                    }
                    assert(as_map(after) =~= as_map(before).insert(name, value));
                }
            },
            None => {
                self.entries.push((key, value));
                proof {
                    let after = self.entries@;
                    let at = before.len() as int;
                    assert forall|i: int, j: int| 0 <= i < j < after.len() implies (
                    #[trigger] after[i]).0@ != (#[trigger] after[j]).0@ by {
                        assert(after[i] == before[i]);
                        if j < at {
                            assert(after[j] == before[j]);
                        }
                    }
                    assert forall|other: Seq<char>| has_key(after, other) == (has_key(before, other)
                        || other == name) by {
                        if has_key(before, other) {
                            let i = key_position(before, other);
                            assert(after[i].0@ == other);
                        }
                        if other == name {
                            assert(after[at].0@ == other);
                        }
                        if has_key(after, other) {
                            let i = key_position(after, other);
                            if i < at {
                                assert(before[i].0@ == other);
                            }
                        }
                    }
                    assert forall|other: Seq<char>| has_key(after, other) implies as_map(
                        after,
                    )[other] == as_map(before).insert(name, value)[other] by {
                        let i = key_position(after, other);
                        entry_is_mapped(after, i);
                        if i < at {
                            assert(before[i] == after[i]);
                            entry_is_mapped(before, i);
                        }
                    }
                    assert(as_map(after) =~= as_map(before).insert(name, value));
                }
            },
        }
    }

    /// Takes out what is filed under `key`.
    pub fn remove(&mut self, key: &str) -> (taken: Option<T>)
        requires
            old(self).well_formed(),
        ensures
            final(self).well_formed(),
            final(self)@ == old(self)@.remove(key@),
            match taken {
                Some(value) => old(self)@.dom().contains(key@) && value == old(self)@[key@],
                None => !old(self)@.dom().contains(key@),
            },
    {
        let ghost before = self.entries@;
        match self.position(key) {
            Some(at) => {
                let (_, value) = self.entries.remove(at);
                proof {
                    let after = self.entries@;
                    entry_is_mapped(before, at as int);
                    assert forall|i: int| 0 <= i < after.len() implies #[trigger] after[i] == before[if i
                        < at {
                        i
                    } else {
                        i + 1
                    }] by {}
                    assert forall|i: int, j: int| 0 <= i < j < after.len() implies (
                    #[trigger] after[i]).0@ != (#[trigger] after[j]).0@ by {
                        let from = if i < at { i } else { i + 1 };
                        let to = if j < at { j } else { j + 1 };
                        assert(before[from].0@ != before[to].0@);
                    }
                    assert forall|other: Seq<char>| has_key(after, other) == (has_key(before, other)
                        && other != key@) by {
                        if has_key(after, other) {
                            let i = key_position(after, other);
                            let from = if i < at { i } else { i + 1 };
                            assert(before[from].0@ == other);
                            if from < at {
                                assert(before[from].0@ != before[at as int].0@);
                            } else {
                                assert(before[at as int].0@ != before[from].0@);
                            }
                        }
                        if has_key(before, other) && other != key@ {
                            let i = key_position(before, other);
                            assert(i != at);
                            if i < at {
                                assert(after[i].0@ == other);
                            } else {
                                assert(after[i - 1].0@ == other);
                            }
                        }
                    }
                    assert forall|other: Seq<char>| has_key(after, other) implies as_map(
                        after,
                    )[other] == as_map(before).remove(key@)[other] by {
                        let i = key_position(after, other);
                        let from = if i < at { i } else { i + 1 };
                        entry_is_mapped(after, i);
                        entry_is_mapped(before, from);
                    }
                    assert(as_map(after) =~= as_map(before).remove(key@));
                }
                Some(value)
            },
            None => {
                proof {
                    assert(as_map(before).remove(key@) =~= as_map(before));
                }
                None
            },
        }
    }
}

} // verus!
