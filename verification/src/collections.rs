//! String-keyed maps and sets kept as lists in insertion order.
//!
//! A [`NameMap`] is an association list in which the first entry of a key is
//! the one that counts. Its model is the mathematical map from keys to values,
//! and every operation is stated over that map, so callers never reason about
//! the list itself.

use vstd::prelude::*;
use vstd::string::*;

verus! {

/// One key with its value.
#[derive(Debug)]
pub struct Entry<V> {
    pub key: String,
    pub value: V,
}

/// A map from names to values.
#[derive(Debug)]
pub struct NameMap<V> {
    pub entries: Vec<Entry<V>>,
}

/// A set of names.
#[derive(Debug)]
pub struct NameSet {
    pub names: Vec<String>,
}

/// The map that an association list denotes: the first entry of a key wins.
pub open spec fn assoc_view<V>(entries: Seq<Entry<V>>) -> Map<Seq<char>, V>
    decreases entries.len(),
{
    if entries.len() == 0 {
        Map::empty()
    } else {
        assoc_view(entries.drop_first()).insert(entries[0].key@, entries[0].value)
    }
}

/// Whether `i` is the place of the first entry of `key`.
pub open spec fn first_index<V>(entries: Seq<Entry<V>>, key: Seq<char>, i: int) -> bool {
    &&& 0 <= i < entries.len()
    &&& entries[i].key@ == key
    &&& forall|j: int| 0 <= j < i ==> (#[trigger] entries[j]).key@ != key
}

/// Whether no entry has the key `key`.
pub open spec fn absent<V>(entries: Seq<Entry<V>>, key: Seq<char>) -> bool {
    forall|j: int| 0 <= j < entries.len() ==> (#[trigger] entries[j]).key@ != key
}

/// The set that a list of names denotes.
pub open spec fn names_view(names: Seq<String>) -> Set<Seq<char>> {
    Set::new(|k: Seq<char>| exists|i: int| 0 <= i < names.len() && (#[trigger] names[i])@ == k)
}

impl<V> View for NameMap<V> {
    type V = Map<Seq<char>, V>;

    open spec fn view(&self) -> Map<Seq<char>, V> {
        assoc_view(self.entries@)
    }
}

impl View for NameSet {
    type V = Set<Seq<char>>;

    open spec fn view(&self) -> Set<Seq<char>> {
        names_view(self.names@)
    }
}

/// The first entry of a key holds the value that the map gives the key.
pub proof fn lemma_assoc_lookup<V>(entries: Seq<Entry<V>>, key: Seq<char>, i: int)
    requires
        first_index(entries, key, i),
    ensures
        assoc_view(entries).contains_key(key),
        assoc_view(entries)[key] == entries[i].value,
    decreases i,
{
    if i > 0 {
        let rest = entries.drop_first();
        assert(forall|j: int| 0 <= j < rest.len() ==> rest[j] == entries[j + 1]);
        assert(first_index(rest, key, i - 1)) by {
            assert forall|j: int| 0 <= j < i - 1 implies (#[trigger] rest[j]).key@ != key by {
                assert(rest[j] == entries[j + 1]);
            }
        }
        lemma_assoc_lookup(rest, key, i - 1);
        assert(entries[0].key@ != key);
    }
}

/// A key that no entry has is outside the map.
pub proof fn lemma_assoc_absent<V>(entries: Seq<Entry<V>>, key: Seq<char>)
    requires
        absent(entries, key),
    ensures
        !assoc_view(entries).contains_key(key),
    decreases entries.len(),
{
    if entries.len() > 0 {
        let rest = entries.drop_first();
        assert forall|j: int| 0 <= j < rest.len() implies (#[trigger] rest[j]).key@ != key by {
            assert(rest[j] == entries[j + 1]);
        }
        lemma_assoc_absent(rest, key);
        assert(entries[0].key@ != key);
    }
}

/// Replacing the first entry of a key by another entry of that key updates
/// the map at that key.
pub proof fn lemma_assoc_update<V>(entries: Seq<Entry<V>>, i: int, e: Entry<V>)
    requires
        first_index(entries, e.key@, i),
    ensures
        assoc_view(entries.update(i, e)) == assoc_view(entries).insert(e.key@, e.value),
    decreases i,
{
    let changed = entries.update(i, e);
    if i == 0 {
        assert(changed.drop_first() =~= entries.drop_first());
        assert(assoc_view(changed) =~= assoc_view(entries).insert(e.key@, e.value));
    } else {
        let rest = entries.drop_first();
        assert(forall|j: int| 0 <= j < rest.len() ==> rest[j] == entries[j + 1]);
        assert(first_index(rest, e.key@, i - 1)) by {
            assert forall|j: int| 0 <= j < i - 1 implies (#[trigger] rest[j]).key@ != e.key@ by {
                assert(rest[j] == entries[j + 1]);
            }
        }
        lemma_assoc_update(rest, i - 1, e);
        assert(changed.drop_first() =~= rest.update(i - 1, e));
        assert(entries[0].key@ != e.key@);
        assert(assoc_view(changed) =~= assoc_view(entries).insert(e.key@, e.value));
    }
}

/// Appending an entry whose key is new inserts it into the map.
pub proof fn lemma_assoc_push<V>(entries: Seq<Entry<V>>, e: Entry<V>)
    requires
        absent(entries, e.key@),
    ensures
        assoc_view(entries.push(e)) == assoc_view(entries).insert(e.key@, e.value),
    decreases entries.len(),
{
    let grown = entries.push(e);
    if entries.len() == 0 {
        assert(grown.drop_first() =~= Seq::<Entry<V>>::empty());
        assert(assoc_view(grown.drop_first()) =~= Map::<Seq<char>, V>::empty());
    } else {
        let rest = entries.drop_first();
        assert forall|j: int| 0 <= j < rest.len() implies (#[trigger] rest[j]).key@ != e.key@ by {
            assert(rest[j] == entries[j + 1]);
        }
        lemma_assoc_push(rest, e);
        assert(grown.drop_first() =~= rest.push(e));
        assert(entries[0].key@ != e.key@);
        assert(assoc_view(grown) =~= assoc_view(entries).insert(e.key@, e.value));
    }
}

/// Deleting an entry changes the map at most at that entry's key.
pub proof fn lemma_assoc_remove<V>(entries: Seq<Entry<V>>, i: int)
    requires
        0 <= i < entries.len(),
    ensures
        assoc_view(entries.remove(i)).remove(entries[i].key@) == assoc_view(entries).remove(
            entries[i].key@,
        ),
    decreases i,
{
    let key = entries[i].key@;
    let fewer = entries.remove(i);
    if i == 0 {
        assert(fewer =~= entries.drop_first());
        assert(assoc_view(fewer).remove(key) =~= assoc_view(entries).remove(key));
    } else {
        let rest = entries.drop_first();
        entries.remove_ensures(i);
        rest.remove_ensures(i - 1);
        assert(rest[i - 1] == entries[i]);
        lemma_assoc_remove(rest, i - 1);
        assert(fewer.drop_first() =~= rest.remove(i - 1));
        assert(fewer[0] == entries[0]);
        let a = assoc_view(rest.remove(i - 1));
        let b = assoc_view(rest);
        let m1 = assoc_view(fewer).remove(key);
        let m2 = assoc_view(entries).remove(key);
        assert(assoc_view(fewer) == a.insert(entries[0].key@, entries[0].value));
        assert(assoc_view(entries) == b.insert(entries[0].key@, entries[0].value));
        assert forall|k: Seq<char>|
            (#[trigger] m1.contains_key(k) <==> m2.contains_key(k)) && (m1.contains_key(k)
                ==> m1[k] == m2[k]) by {
            if k != key {
                assert(a.remove(key).contains_key(k) <==> b.remove(key).contains_key(k));
                assert(a.remove(key)[k] == b.remove(key)[k]);
            }
        }
        assert(m1 =~= m2);
    }
}

/// Place of the first entry of `key`, if there is one.
pub fn find_entry<V>(entries: &Vec<Entry<V>>, key: &String) -> (res: Option<usize>)
    ensures
        match res {
            Some(i) => first_index(entries@, key@, i as int),
            None => absent(entries@, key@),
        },
{
    let mut i: usize = 0;
    while i < entries.len()
        invariant
            i <= entries.len(),
            forall|j: int| 0 <= j < i ==> (#[trigger] entries@[j]).key@ != key@,
        decreases entries.len() - i,
    {
        if entries[i].key == *key {
            return Some(i);
        }
        i += 1;
    }
    None
}

/// The value that the list binds to `key`, if any.
pub fn get_entry<'a, V>(entries: &'a Vec<Entry<V>>, key: &str) -> (res: Option<&'a V>)
    ensures
        match res {
            Some(v) => assoc_view(entries@).contains_key(key@) && assoc_view(entries@)[key@] == *v,
            None => !assoc_view(entries@).contains_key(key@),
        },
{
    let k = String::from_str(key);
    match find_entry(entries, &k) {
        Some(i) => {
            proof {
                lemma_assoc_lookup(entries@, key@, i as int);
            }
            Some(&entries[i].value)
        },
        None => {
            proof {
                lemma_assoc_absent(entries@, key@);
            }
            None
        },
    }
}

/// Binds `key` to `value` in the list, replacing an earlier binding.
pub fn insert_entry<V>(entries: &mut Vec<Entry<V>>, key: String, value: V)
    ensures
        assoc_view(final(entries)@) == assoc_view(old(entries)@).insert(key@, value),
{
    let found = find_entry(entries, &key);
    let e = Entry { key, value };
    match found {
        Some(i) => {
            proof {
                lemma_assoc_update(entries@, i as int, e);
            }
            entries.set(i, e);
        },
        None => {
            proof {
                lemma_assoc_push(entries@, e);
            }
            entries.push(e);
        },
    }
}

/// Removes every entry of `key` from the list.
pub fn remove_entry<V>(entries: &mut Vec<Entry<V>>, key: &str)
    ensures
        assoc_view(final(entries)@) == assoc_view(old(entries)@).remove(key@),
{
    let k = String::from_str(key);
    let mut i: usize = 0;
    while i < entries.len()
        invariant
            i <= entries.len(),
            k@ == key@,
            forall|j: int| 0 <= j < i ==> (#[trigger] entries@[j]).key@ != key@,
            assoc_view(entries@).remove(key@) == assoc_view(old(entries)@).remove(key@),
        decreases entries.len() - i,
    {
        if entries[i].key == k {
            proof {
                lemma_assoc_remove(entries@, i as int);
            }
            entries.remove(i);
        } else {
            i += 1;
        }
    }
    proof {
        lemma_assoc_absent(entries@, key@);
        assert(assoc_view(entries@).remove(key@) =~= assoc_view(entries@));
    }
}

/// Takes the value bound to `key` out of the list. Binding `key` again
/// afterwards gives the map that binding it before would have given.
pub fn take_entry<V>(entries: &mut Vec<Entry<V>>, key: &str) -> (res: Option<V>)
    ensures
        match res {
            Some(v) => assoc_view(old(entries)@).contains_key(key@) && assoc_view(
                old(entries)@,
            )[key@] == v,
            None => !assoc_view(old(entries)@).contains_key(key@) && final(entries)@ == old(
                entries,
            )@,
        },
        assoc_view(final(entries)@).remove(key@) == assoc_view(old(entries)@).remove(key@),
{
    let k = String::from_str(key);
    match find_entry(entries, &k) {
        Some(i) => {
            proof {
                lemma_assoc_lookup(entries@, key@, i as int);
                lemma_assoc_remove(entries@, i as int);
            }
            let e = entries.remove(i);
            Some(e.value)
        },
        None => {
            proof {
                lemma_assoc_absent(entries@, key@);
            }
            None
        },
    }
}

impl<V> NameMap<V> {
    /// The empty map.
    pub fn new() -> (res: Self)
        ensures
            res@ == Map::<Seq<char>, V>::empty(),
    {
        NameMap { entries: Vec::new() }
    }

    /// The value bound to `key`, if any.
    pub fn get(&self, key: &str) -> (res: Option<&V>)
        ensures
            match res {
                Some(v) => self@.contains_key(key@) && self@[key@] == *v,
                None => !self@.contains_key(key@),
            },
    {
        get_entry(&self.entries, key)
    }

    /// Whether `key` is bound.
    pub fn contains_key(&self, key: &str) -> (res: bool)
        ensures
            res == self@.contains_key(key@),
    {
        self.get(key).is_some()
    }

    /// Binds `key` to `value`, replacing an earlier binding.
    pub fn insert(&mut self, key: String, value: V)
        ensures
            final(self)@ == old(self)@.insert(key@, value),
    {
        insert_entry(&mut self.entries, key, value);
    }

    /// Removes the binding of `key`, if any.
    pub fn remove(&mut self, key: &str)
        ensures
            final(self)@ == old(self)@.remove(key@),
    {
        remove_entry(&mut self.entries, key);
    }

    /// Takes the value bound to `key` out of the map. Binding `key` again
    /// afterwards gives the map that binding it before would have given.
    pub fn take(&mut self, key: &str) -> (res: Option<V>)
        ensures
            match res {
                Some(v) => old(self)@.contains_key(key@) && old(self)@[key@] == v,
                None => !old(self)@.contains_key(key@) && final(self)@ == old(self)@,
            },
            final(self)@.remove(key@) == old(self)@.remove(key@),
    {
        take_entry(&mut self.entries, key)
    }
}

impl NameSet {
    /// The empty set.
    pub fn new() -> (res: Self)
        ensures
            res@ == Set::<Seq<char>>::empty(),
    {
        let s = NameSet { names: Vec::new() };
        assert(s@ =~= Set::<Seq<char>>::empty());
        s
    }

    /// Whether `name` is in the set.
    pub fn contains(&self, name: &str) -> (res: bool)
        ensures
            res == self@.contains(name@),
    {
        let k = String::from_str(name);
        let mut i: usize = 0;
        while i < self.names.len()
            invariant
                i <= self.names.len(),
                k@ == name@,
                forall|j: int| 0 <= j < i ==> (#[trigger] self.names@[j])@ != name@,
            decreases self.names.len() - i,
        {
            if self.names[i] == k {
                return true;
            }
            i += 1;
        }
        false
    }

    /// Adds `name` to the set.
    pub fn insert(&mut self, name: String)
        ensures
            final(self)@ == old(self)@.insert(name@),
    {
        if !self.contains(name.as_str()) {
            self.names.push(name);
            assert(self@ =~= old(self)@.insert(name@)) by {
                assert forall|k: Seq<char>| old(self)@.insert(name@).contains(k) implies self@.contains(
                    k,
                ) by {
                    if k == name@ {
                        assert(self.names@[self.names@.len() - 1]@ == k);
                    } else {
                        let i = choose|i: int|
                            0 <= i < old(self).names@.len() && (#[trigger] old(self).names@[i])@
                                == k;
                        assert(self.names@[i]@ == k);
                    }
                }
                assert forall|k: Seq<char>| self@.contains(k) implies old(self)@.insert(
                    name@,
                ).contains(k) by {
                    let i = choose|i: int|
                        0 <= i < self.names@.len() && (#[trigger] self.names@[i])@ == k;
                    if i < old(self).names@.len() {
                        assert(old(self).names@[i]@ == k);
                    }
                }
            }
        } else {
            assert(self@ =~= old(self)@.insert(name@));
        }
    }
}

} // verus!
