//! An associative table from names to values that keeps its entries in the order
//! in which their names were first inserted.

use vstd::prelude::*;

verus! {

/// The position of the first entry named `key` at or after position `from`.
pub open spec fn find_from<T>(entries: Seq<(Seq<char>, T)>, key: Seq<char>, from: int) -> Option<
    int,
>
    decreases entries.len() - from,
{
    if from < 0 || from >= entries.len() {
        None
    } else if entries[from].0 == key {
        Some(from)
    } else {
        find_from(entries, key, from + 1)
    }
}

/// The position of the first entry named `key`.
pub open spec fn index_of<T>(entries: Seq<(Seq<char>, T)>, key: Seq<char>) -> Option<int> {
    find_from(entries, key, 0)
}

/// The value stored under `key`, if there is one.
pub open spec fn lookup<T>(entries: Seq<(Seq<char>, T)>, key: Seq<char>) -> Option<T> {
    match index_of(entries, key) {
        Some(i) => Some(entries[i].1),
        None => None,
    }
}

/// The entries after `value` was stored under `key`: an entry of that name keeps
/// its place and takes the new value, a new name goes to the end.
pub open spec fn inserted<T>(entries: Seq<(Seq<char>, T)>, key: Seq<char>, value: T) -> Seq<
    (Seq<char>, T),
> {
    match index_of(entries, key) {
        Some(i) => entries.update(i, (key, value)),
        None => entries.push((key, value)),
    }
}

/// No two entries have the same name.
pub open spec fn names_unique<T>(entries: Seq<(Seq<char>, T)>) -> bool {
    forall|i: int, j: int|
        0 <= i < j < entries.len() ==> (#[trigger] entries[i]).0 != (#[trigger] entries[j]).0
}

/// What `find_from` returns is the first match at or after `from`, and `None`
/// only where no entry from there on has the name.
pub proof fn lemma_find_from<T>(entries: Seq<(Seq<char>, T)>, key: Seq<char>, from: int)
    requires
        0 <= from,
    ensures
        match find_from(entries, key, from) {
            Some(i) => from <= i < entries.len() && entries[i].0 == key && forall|j: int|
                from <= j < i ==> (#[trigger] entries[j]).0 != key,
            None => forall|j: int| from <= j < entries.len() ==> (#[trigger] entries[j]).0 != key,
        },
    decreases entries.len() - from,
{
    if from < entries.len() && entries[from].0 != key {
        lemma_find_from(entries, key, from + 1);
    }
}

/// Storing a value keeps the names unique, and a lookup of the name then finds it.
pub proof fn lemma_inserted<T>(entries: Seq<(Seq<char>, T)>, key: Seq<char>, value: T)
    requires
        names_unique(entries),
    ensures
        names_unique(inserted(entries, key, value)),
        lookup(inserted(entries, key, value), key) == Some(value),
        forall|other: Seq<char>|
            other != key ==> lookup(inserted(entries, key, value), other) == lookup(
                entries,
                other,
            ),
{
    let after = inserted(entries, key, value);
    lemma_find_from(entries, key, 0);
    lemma_find_from(after, key, 0);
    assert(names_unique(after)) by {
        assert forall|i: int, j: int| 0 <= i < j < after.len() implies (#[trigger] after[i]).0 != (
        #[trigger] after[j]).0 by {
            match index_of(entries, key) {
                Some(k) => {
                    assert(after[i].0 == entries[i].0);
                    assert(after[j].0 == entries[j].0);
                },
                None => {
                    if j < entries.len() {
                        assert(after[i].0 == entries[i].0);
                        assert(after[j].0 == entries[j].0);
                    } else {
                        assert(after[i].0 == entries[i].0);
                    }
                },
            }
        }
    }
    match index_of(entries, key) {
        Some(k) => {
            assert(after[k].0 == key);
            match index_of(after, key) {
                Some(m) => {
                    if m < k {
                        assert(after[m].0 == entries[m].0);
                    }
                },
                None => {},
            }
        },
        None => {
            let k = entries.len() as int;
            assert(after[k].0 == key);
            match index_of(after, key) {
                Some(m) => {
                    if m < k {
                        assert(after[m].0 == entries[m].0);
                    }
                },
                None => {},
            }
        },
    }
    assert forall|other: Seq<char>| other != key implies lookup(after, other) == lookup(
        entries,
        other,
    ) by {
        lemma_find_from(entries, other, 0);
        lemma_find_from(after, other, 0);
        match index_of(entries, other) {
            Some(a) => {
                assert(after[a] == entries[a]);
                match index_of(after, other) {
                    Some(b) => {
                        if b < a {
                            assert(after[b].0 == entries[b].0);
                        }
                        if a < b {
                        }
                    },
                    None => {},
                }
            },
            None => {
                match index_of(after, other) {
                    Some(b) => {
                        if b < entries.len() {
                            assert(after[b].0 == entries[b].0);
                        }
                    },
                    None => {},
                }
            },
        }
    }
}

/// One entry of a table.
struct Entry<V> {
    key: String,
    value: V,
}

/// A table of values by name. Each name occurs once; the entries stand in the
/// order in which their names first came.
pub struct Table<V> {
    entries: Vec<Entry<V>>,
}

impl<V: View> View for Table<V> {
    type V = Seq<(Seq<char>, V::V)>;

    closed spec fn view(&self) -> Seq<(Seq<char>, V::V)> {
        Seq::new(self.entries@.len(), |i: int| (self.entries@[i].key@, self.entries@[i].value@))
    }
}

impl<V> Table<V> {
    #[verifier::type_invariant]
    spec fn well_formed(self) -> bool {
        forall|i: int, j: int|
            0 <= i < j < self.entries@.len() ==> (#[trigger] self.entries@[i]).key@ != (
            #[trigger] self.entries@[j]).key@
    }
}

impl<V: View> Table<V> {
    /// An empty table.
    pub fn new() -> (r: Table<V>)
        ensures
            r@ == Seq::<(Seq<char>, V::V)>::empty(),
    {
        let r = Table { entries: Vec::new() };
        proof {
            assert(r@ =~= Seq::<(Seq<char>, V::V)>::empty());
        }
        r
    }

    /// The number of entries. No two of them have the same name.
    pub fn len(&self) -> (r: usize)
        ensures
            r == self@.len(),
            names_unique(self@),
    {
        proof {
            use_type_invariant(self);
            assert forall|i: int, j: int| 0 <= i < j < self@.len() implies (
            #[trigger] self@[i]).0 != (#[trigger] self@[j]).0 by {
                assert(self@[i].0 == self.entries@[i].key@);
                assert(self@[j].0 == self.entries@[j].key@);
            }
        }
        self.entries.len()
    }

    /// The name of the entry at position `i`.
    pub fn key(&self, i: usize) -> (r: &String)
        requires
            i < self@.len(),
        ensures
            r@ == self@[i as int].0,
    {
        &self.entries[i].key
    }

    /// The value of the entry at position `i`.
    pub fn value(&self, i: usize) -> (r: &V)
        requires
            i < self@.len(),
        ensures
            r@ == self@[i as int].1,
    {
        &self.entries[i].value
    }

    fn position(&self, key: &str) -> (r: Option<usize>)
        ensures
            match r {
                Some(i) => index_of(self@, key@) == Some(i as int) && i < self@.len(),
                None => index_of(self@, key@) is None,
            },
    {
        let mut i: usize = 0;
        while i < self.entries.len()
            invariant
                i <= self.entries@.len(),
                self@.len() == self.entries@.len(),
                index_of(self@, key@) == find_from(self@, key@, i as int),
            decreases self.entries@.len() - i,
        {
            assert(self@[i as int].0 == self.entries@[i as int].key@);
            if crate::text::same_text(self.entries[i].key.as_str(), key) {
                return Some(i);
            }
            i += 1;
        }
        None
    }

    /// The value stored under `key`, if there is one.
    pub fn get(&self, key: &str) -> (r: Option<&V>)
        ensures
            match r {
                Some(v) => lookup(self@, key@) == Some(v@),
                None => lookup(self@, key@) is None,
            },
    {
        match self.position(key) {
            Some(i) => Some(&self.entries[i].value),
            None => None,
        }
    }

    /// Whether a value is stored under `key`.
    pub fn contains_key(&self, key: &str) -> (r: bool)
        ensures
            r == lookup(self@, key@).is_some(),
    {
        self.position(key).is_some()
    }

    /// Stores `value` under `key`. Where the name is taken already, the entry keeps
    /// its place and the new value replaces the old one.
    pub fn insert(&mut self, key: String, value: V)
        ensures
            final(self)@ == inserted(old(self)@, key@, value@),
    {
        proof {
            use_type_invariant(&*self);
        }
        let found = self.position(key.as_str());
        let mut entries: Vec<Entry<V>> = Vec::new();
        core::mem::swap(&mut self.entries, &mut entries);
        proof {
            lemma_find_from(old(self)@, key@, 0);
            assert forall|j: int| 0 <= j < entries@.len() implies old(self)@[j].0
                == #[trigger] entries@[j].key@ by {}
        }
        match found {
            Some(i) => {
                entries.set(i, Entry { key, value });
            },
            None => {
                entries.push(Entry { key, value });
            },
        }
        self.entries = entries;
        proof {
            assert(self@ =~= inserted(old(self)@, key@, value@));
        }
    }
}

} // verus!
