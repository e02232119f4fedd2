//! Values kept under unique string ids, in the order they were first stored.
use crate::expression::text_views;
use vstd::prelude::*;

verus! {

/// `k` is the least index at which `name` occurs in `names`.
pub open spec fn occurs_first_at(names: Seq<Seq<char>>, name: Seq<char>, k: int) -> bool {
    &&& 0 <= k < names.len()
    &&& names[k] == name
    &&& forall|j: int| 0 <= j < k ==> names[j] != name
}

/// The least index at which `name` occurs in `names`, if it occurs at all.
pub open spec fn first_index(names: Seq<Seq<char>>, name: Seq<char>) -> Option<int> {
    if exists|k: int| occurs_first_at(names, name, k) {
        Some(choose|k: int| occurs_first_at(names, name, k))
    } else {
        None
    }
}

/// A name has a first index exactly when it occurs.
pub proof fn lemma_first_index_contains(names: Seq<Seq<char>>, name: Seq<char>)
    ensures
        first_index(names, name) is Some <==> names.contains(name),
        first_index(names, name) matches Some(k) ==> occurs_first_at(names, name, k),
    decreases names.len(),
{
    if names.contains(name) {
        let i = choose|i: int| 0 <= i < names.len() && names[i] == name;
        if exists|j: int| 0 <= j < i && names[j] == name {
            let j = choose|j: int| 0 <= j < i && names[j] == name;
            let front = names.take(i);
            assert(front[j] == name);
            lemma_first_index_contains(front, name);
            let k = first_index(front, name)->0;
            assert(occurs_first_at(front, name, k));
            assert(occurs_first_at(names, name, k)) by {
                assert(names[k] == front[k]);
                assert forall|m: int| 0 <= m < k implies names[m] != name by {
                    assert(names[m] == front[m]);
                }
            }
        } else {
            assert(occurs_first_at(names, name, i));
        }
    }
}

/// Finds the first of `names` that equals `name`.
pub fn find_name(names: &Vec<String>, name: &String) -> (found: Option<usize>)
    ensures
        match found {
            Some(k) => first_index(text_views(names@), name@) == Some(k as int),
            None => first_index(text_views(names@), name@) is None,
        },
        found is Some <==> text_views(names@).contains(name@),
{
    let ghost views = text_views(names@);
    let mut i: usize = 0;
    while i < names.len()
        invariant
            i <= names.len(),
            views == text_views(names@),
            forall|j: int| 0 <= j < i ==> views[j] != name@,
        decreases names.len() - i,
    {
        if names[i] == *name {
            assert(views[i as int] == name@);
            assert(occurs_first_at(views, name@, i as int));
            proof {
                lemma_first_index_contains(views, name@);
            }
            return Some(i);
        }
        i += 1;
    }
    proof {
        lemma_first_index_contains(views, name@);
    }
    None
}

/// One stored value and the id it is stored under.
#[derive(Debug)]
pub struct Entry<T> {
    pub id: String,
    pub value: T,
}

/// The ids of a list of entries, in order.
pub open spec fn ids<T>(entries: Seq<Entry<T>>) -> Seq<Seq<char>> {
    Seq::new(entries.len(), |i: int| entries[i].id@)
}

/// The value stored under `id`: that of the first entry with this id.
pub open spec fn lookup<T>(entries: Seq<Entry<T>>, id: Seq<char>) -> Option<T> {
    match first_index(ids(entries), id) {
        Some(k) => Some(entries[k].value),
        None => None,
    }
}

/// A store of values under string ids.
#[derive(Debug)]
pub struct Registry<T> {
    pub entries: Vec<Entry<T>>,
}

impl<T> Registry<T> {
    /// No id is stored twice.
    pub open spec fn well_formed(&self) -> bool {
        ids(self.entries@).no_duplicates()
    }

    /// An empty store.
    pub fn new() -> (store: Self)
        ensures
            store.entries@.len() == 0,
            store.well_formed(),
    {
        Registry { entries: Vec::new() }
    }

    /// The number of stored values.
    pub fn len(&self) -> (n: usize)
        ensures
            n == self.entries@.len(),
    {
        self.entries.len()
    }

    /// The ids of the stored values, in order.
    pub fn keys(&self) -> (keys: Vec<String>)
        ensures
            text_views(keys@) == ids(self.entries@),
    {
        let mut keys: Vec<String> = Vec::new();
        let mut i: usize = 0;
        while i < self.entries.len()
            invariant
                i <= self.entries.len(),
                keys.len() == i,
                forall|k: int| 0 <= k < i ==> keys[k]@ == self.entries[k].id@,
            decreases self.entries.len() - i,
        {
            keys.push(self.entries[i].id.clone());
            i += 1;
        }
        assert(text_views(keys@) =~= ids(self.entries@));
        keys
    }

    /// The index of the entry stored under `id`.
    pub fn position(&self, id: &String) -> (found: Option<usize>)
        ensures
            match found {
                Some(k) => k < self.entries@.len() && first_index(ids(self.entries@), id@) == Some(
                    k as int,
                ),
                None => first_index(ids(self.entries@), id@) is None,
            },
            found is Some <==> ids(self.entries@).contains(id@),
    {
        let ghost names = ids(self.entries@);
        let mut i: usize = 0;
        while i < self.entries.len()
            invariant
                i <= self.entries.len(),
                names == ids(self.entries@),
                forall|j: int| 0 <= j < i ==> names[j] != id@,
            decreases self.entries.len() - i,
        {
            if self.entries[i].id == *id {
                assert(names[i as int] == id@);
                assert(occurs_first_at(names, id@, i as int));
                proof {
                    lemma_first_index_contains(names, id@);
                }
                return Some(i);
            }
            i += 1;
        }
        proof {
            lemma_first_index_contains(names, id@);
        }
        None
    }

    /// The value stored under `id`.
    pub fn get(&self, id: &String) -> (found: Option<&T>)
        ensures
            match found {
                Some(value) => lookup(self.entries@, id@) == Some(*value),
                None => lookup(self.entries@, id@) is None,
            },
    {
        match self.position(id) {
            Some(k) => Some(&self.entries[k].value),
            None => None,
        }
    }

    /// Stores `value` under `id`, in place of the value stored there before if
    /// there was one, and at the end otherwise.
    pub fn insert(&mut self, id: String, value: T)
        ensures
            old(self).well_formed() ==> final(self).well_formed(),
            lookup(final(self).entries@, id@) == Some(value),
            forall|other: Seq<char>|
                other != id@ ==> lookup(final(self).entries@, other) == lookup(
                    old(self).entries@,
                    other,
                ),
            ids(old(self).entries@).contains(id@) ==> ids(final(self).entries@) == ids(
                old(self).entries@,
            ),
            !ids(old(self).entries@).contains(id@) ==> ids(final(self).entries@) == ids(
                old(self).entries@,
            ).push(id@),
    {
        let ghost before = self.entries@;
        let ghost key = id@;
        match self.position(&id) {
            Some(k) => {
                self.entries.set(k, Entry { id, value });
                assert(ids(self.entries@) =~= ids(before));
                assert forall|other: Seq<char>| other != key implies lookup(self.entries@, other)
                    == lookup(before, other) by {
                    lemma_first_index_contains(ids(before), other);
                }
            },
            None => {
                self.entries.push(Entry { id, value });
                let ghost after = self.entries@;
                assert(ids(after) =~= ids(before).push(key));
                assert(occurs_first_at(ids(after), key, before.len() as int));
                proof {
                    lemma_first_index_contains(ids(after), key);
                    lemma_first_index_contains(ids(before), key);
                }
                assert forall|other: Seq<char>| other != key implies lookup(after, other)
                    == lookup(before, other) by {
                    lemma_first_index_contains(ids(before), other);
                    lemma_first_index_contains(ids(after), other);
                    if first_index(ids(before), other) is Some {
                        let k = first_index(ids(before), other)->0;
                        assert(occurs_first_at(ids(after), other, k));
                    } else if first_index(ids(after), other) is Some {
                        let k = first_index(ids(after), other)->0;
                        assert(ids(before)[k] == other);
                    }
                }
            },
        }
    }
}

} // verus!
