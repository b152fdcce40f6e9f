//! Map from session names to values.

use vstd::prelude::*;

use crate::protocol::SessionName;

verus! {

/// Tells whether no name occurs twice.
pub open spec fn distinct_names<V>(entries: Seq<(SessionName, V)>) -> bool {
    forall|i: int, j: int|
        0 <= i < j < entries.len() ==> (#[trigger] entries[i]).0@ != (#[trigger] entries[j]).0@
}

/// The index of the entry under `key`, or the length of `entries`.
pub open spec fn entry_index<V>(entries: Seq<(SessionName, V)>, key: Seq<char>) -> int
    decreases entries.len(),
{
    if entries.len() == 0 || entries[0].0@ == key {
        0
    } else {
        1 + entry_index(entries.drop_first(), key)
    }
}

/// The map that `entries` lists.
pub open spec fn entries_map<V>(entries: Seq<(SessionName, V)>) -> Map<Seq<char>, V> {
    Map::new(
        |key: Seq<char>| 0 <= entry_index(entries, key) < entries.len(),
        |key: Seq<char>| entries[entry_index(entries, key)].1,
    )
}

proof fn lemma_entry_index<V>(entries: Seq<(SessionName, V)>, key: Seq<char>)
    ensures
        0 <= entry_index(entries, key) <= entries.len(),
        entry_index(entries, key) < entries.len() ==> entries[entry_index(entries, key)].0@ == key,
        forall|k: int|
            0 <= k < entry_index(entries, key) ==> (#[trigger] entries[k]).0@ != key,
    decreases entries.len(),
{
    if entries.len() > 0 && entries[0].0@ != key {
        let rest = entries.drop_first();
        lemma_entry_index(rest, key);
        assert forall|k: int| 0 <= k < entry_index(entries, key) implies (
        #[trigger] entries[k]).0@ != key by {
            if k > 0 {
                assert(rest[k - 1] == entries[k]);
            }
        }
    }
}

proof fn lemma_entry_at<V>(entries: Seq<(SessionName, V)>, i: int)
    requires
        distinct_names(entries),
        0 <= i < entries.len(),
    ensures
        entry_index(entries, entries[i].0@) == i,
{
    let key = entries[i].0@;
    lemma_entry_index(entries, key);
    let found = entry_index(entries, key);
    if found < i {
        assert(entries[found].0@ != entries[i].0@);
    }
}

/// Map from session names to values, one value for each name.
pub struct NameMap<V> {
    entries: Vec<(SessionName, V)>,
}

impl<V> View for NameMap<V> {
    type V = Map<Seq<char>, V>;

    closed spec fn view(&self) -> Map<Seq<char>, V> {
        entries_map(self.entries@)
    }
}

impl<V> NameMap<V> {
    #[verifier::type_invariant]
    closed spec fn valid(&self) -> bool {
        distinct_names(self.entries@)
    }

    /// Creates an empty map.
    pub fn new() -> (r: Self)
        ensures
            r@ == Map::<Seq<char>, V>::empty(),
    {
        let r = NameMap { entries: Vec::new() };
        assert(r@ =~= Map::<Seq<char>, V>::empty());
        r
    }

    fn find(&self, name: &SessionName) -> (r: usize)
        ensures
            r == entry_index(self.entries@, name@),
            r <= self.entries@.len(),
    {
        let mut i: usize = 0;
        proof {
            assert(self.entries@.skip(0) == self.entries@);
            lemma_entry_index(self.entries@, name@);
        }
        while i < self.entries.len()
            invariant
                i <= self.entries@.len(),
                entry_index(self.entries@, name@) == i + entry_index(
                    self.entries@.skip(i as int),
                    name@,
                ),
                entry_index(self.entries@, name@) <= self.entries@.len(),
            decreases self.entries@.len() - i,
        {
            if self.entries[i].0 == *name {
                return i;
            }
            proof {
                assert(self.entries@.skip(i as int).drop_first() == self.entries@.skip(i + 1));
            }
            i += 1;
        }
        i
    }

    /// The value under `name`.
    pub fn get(&self, name: &SessionName) -> (r: Option<&V>)
        ensures
            match r {
                Some(value) => self@.dom().contains(name@) && *value == self@[name@],
                None => !self@.dom().contains(name@),
            },
    {
        proof {
            lemma_entry_index(self.entries@, name@);
        }
        let i = self.find(name);
        if i < self.entries.len() {
            Some(&self.entries[i].1)
        } else {
            None
        }
    }

    /// Removes the value under `name`.
    pub fn remove(&mut self, name: &SessionName) -> (r: Option<V>)
        ensures
            final(self)@ == old(self)@.remove(name@),
            match r {
                Some(value) => old(self)@.dom().contains(name@) && value == old(self)@[name@],
                None => !old(self)@.dom().contains(name@),
            },
    {
        proof {
            use_type_invariant(&*self);
            lemma_entry_index(self.entries@, name@);
        }
        let i = self.find(name);
        if i == self.entries.len() {
            proof {
                assert(self@.remove(name@) =~= self@);
            }
            return None;
        }
        let mut entries: Vec<(SessionName, V)> = Vec::new();
        std::mem::swap(&mut entries, &mut self.entries);
        let ghost before = entries@;
        let (_, value) = entries.remove(i);
        proof {
            lemma_removed(before, i as int);
        }
        self.entries = entries;
        Some(value)
    }

    /// Puts `value` under `name`, in place of what was there.
    pub fn insert(&mut self, name: SessionName, value: V)
        ensures
            final(self)@ == old(self)@.insert(name@, value),
    {
        let _ = self.remove(&name);
        proof {
            use_type_invariant(&*self);
            assert(!entries_map(self.entries@).dom().contains(name@));
        }
        let mut entries: Vec<(SessionName, V)> = Vec::new();
        std::mem::swap(&mut entries, &mut self.entries);
        let ghost before = entries@;
        proof {
            lemma_entry_index(before, name@);
            lemma_pushed(before, name, value);
        }
        entries.push((name, value));
        self.entries = entries;
        proof {
            assert(self@ =~= old(self)@.insert(name@, value));
        }
    }

    /// The number of names.
    pub fn len(&self) -> (r: usize)
        ensures
            r == self@.dom().len(),
            self@.dom().finite(),
    {
        proof {
            use_type_invariant(self);
            lemma_domain(self.entries@);
        }
        self.entries.len()
    }
}

proof fn lemma_removed<V>(entries: Seq<(SessionName, V)>, i: int)
    requires
        distinct_names(entries),
        0 <= i < entries.len(),
    ensures
        distinct_names(entries.remove(i)),
        entries_map(entries.remove(i)) == entries_map(entries).remove(entries[i].0@),
{
    let key = entries[i].0@;
    let rest = entries.remove(i);
    assert(distinct_names(rest));
    assert forall|k: Seq<char>| #[trigger]
        entries_map(rest).dom().contains(k) == entries_map(entries).remove(key).dom().contains(
            k,
        ) by {
        lemma_entry_index(entries, k);
        lemma_entry_index(rest, k);
        lemma_entry_at(entries, i);
        let from = entry_index(entries, k);
        let to = entry_index(rest, k);
        if to < rest.len() {
            let was = if to < i {
                to
            } else {
                to + 1
            };
            assert(entries[was] == rest[to]);
            lemma_entry_at(entries, was);
        } else if from < entries.len() && k != key {
            let now = if from < i {
                from
            } else {
                from - 1
            };
            assert(rest[now] == entries[from]);
        }
    }
    assert forall|k: Seq<char>| entries_map(rest).dom().contains(k) implies entries_map(
        rest,
    )[k] == entries_map(entries).remove(key)[k] by {
        lemma_entry_index(entries, k);
        lemma_entry_index(rest, k);
        let to = entry_index(rest, k);
        let was = if to < i {
            to
        } else {
            to + 1
        };
        assert(entries[was] == rest[to]);
        lemma_entry_at(entries, was);
        assert(entries_map(entries).remove(key).dom().contains(k));
    }
    assert(entries_map(rest) =~= entries_map(entries).remove(key));
}

proof fn lemma_pushed<V>(entries: Seq<(SessionName, V)>, name: SessionName, value: V)
    requires
        distinct_names(entries),
        entry_index(entries, name@) == entries.len(),
    ensures
        distinct_names(entries.push((name, value))),
        entries_map(entries.push((name, value))) == entries_map(entries).insert(name@, value),
{
    let more = entries.push((name, value));
    lemma_entry_index(entries, name@);
    assert(distinct_names(more));
    assert forall|k: Seq<char>|
        (#[trigger] entries_map(more).dom().contains(k) == (k == name@ || entries_map(
            entries,
        ).dom().contains(k))) && (entries_map(more).dom().contains(k) ==> entries_map(more)[k] == (
        if k == name@ {
            value
        } else {
            entries_map(entries)[k]
        })) by {
        lemma_entry_index(entries, k);
        lemma_entry_index(more, k);
        lemma_entry_at(more, entries.len() as int);
        let from = entry_index(entries, k);
        if from < entries.len() {
            assert(more[from] == entries[from]);
            lemma_entry_at(more, from);
        } else if k != name@ {
            let to = entry_index(more, k);
            if to < more.len() {
                assert(to < entries.len());
                assert(more[to] == entries[to]);
            }
        }
    }
    assert(entries_map(more) =~= entries_map(entries).insert(name@, value));
}

proof fn lemma_domain<V>(entries: Seq<(SessionName, V)>)
    requires
        distinct_names(entries),
    ensures
        entries_map(entries).dom().finite(),
        entries_map(entries).dom().len() == entries.len(),
    decreases entries.len(),
{
    if entries.len() == 0 {
        assert(entries_map(entries).dom() =~= Set::empty());
    } else {
        let rest = entries.drop_last();
        lemma_domain(rest);
        let last = entries.last();
        lemma_entry_index(rest, last.0@);
        let found = entry_index(rest, last.0@);
        if found < rest.len() {
            assert(entries[found].0@ == entries[entries.len() - 1].0@);
        }
        lemma_pushed(rest, last.0, last.1);
        assert(rest.push((last.0, last.1)) =~= entries);
        assert(entries_map(entries).dom() =~= entries_map(rest).dom().insert(last.0@));
    }
}

/// Entries under distinct names are a map: each name has the value that stands beside it, and
/// no other name has one.
pub proof fn law_entries_are_a_map<V>(entries: Seq<(SessionName, V)>, i: int, key: Seq<char>)
    requires
        distinct_names(entries),
        0 <= i < entries.len(),
    ensures
        entries_map(entries).dom().contains(entries[i].0@),
        entries_map(entries)[entries[i].0@] == entries[i].1,
        entries_map(entries).dom().contains(key) ==> exists|k: int|
            0 <= k < entries.len() && (#[trigger] entries[k]).0@ == key,
{
    lemma_entry_at(entries, i);
    lemma_entry_index(entries, key);
}

} // verus!
