//! Header maps.
//!
//! A header map takes a key to the list of its values.  It keeps its entries
//! in the order in which their keys first came in, so that a map is written
//! to the wire the same way every time, and it never holds a key twice.

use crate::http_signature::HttpStringList;
use crate::schema::{as_map, distinct_keys, has_key, position_of, with_entry, Entries, Values};
use vstd::prelude::*;

verus! {

/// A mapping from header names to their values.
#[derive(Debug)]
pub struct Headers {
    entries: Vec<(String, HttpStringList)>,
}

impl View for Headers {
    type V = Map<Seq<char>, Values>;

    open spec fn view(&self) -> Map<Seq<char>, Values> {
        as_map(self.entries())
    }
}

impl Clone for Headers {
    fn clone(&self) -> (copy: Self)
        ensures
            copy.entries() == self.entries(),
    {
        proof {
            use_type_invariant(self);
        }
        let mut entries: Vec<(String, HttpStringList)> = Vec::new();
        let mut i: usize = 0;
        while i < self.entries.len()
            invariant
                i <= self.entries.len(),
                entries@.map_values(|e: (String, HttpStringList)| (e.0@, e.1@))
                    =~= self.entries().take(i as int),
            decreases self.entries.len() - i,
        {
            let ghost so_far = entries@.map_values(|e: (String, HttpStringList)| (e.0@, e.1@));
            let key = self.entries[i].0.clone();
            let values = self.entries[i].1.clone();
            entries.push((key, values));
            assert(entries@.map_values(|e: (String, HttpStringList)| (e.0@, e.1@)) =~= so_far.push(
                (key@, values@),
            ));
            assert(self.entries().take(i + 1) =~= self.entries().take(i as int).push(
                self.entries()[i as int],
            ));
            i += 1;
        }
        assert(self.entries().take(i as int) =~= self.entries());
        Headers { entries }
    }
}

impl Headers {
    /// The entries, in the order in which their keys first came in.
    pub closed spec fn entries(&self) -> Entries {
        self.entries@.map_values(|e: (String, HttpStringList)| (e.0@, e.1@))
    }

    #[verifier::type_invariant]
    spec fn keys_differ(&self) -> bool {
        distinct_keys(self.entries())
    }

    /// A map without entries.
    pub fn new() -> (headers: Headers)
        ensures
            headers.entries() == Seq::<(Seq<char>, Values)>::empty(),
    {
        let headers = Headers { entries: Vec::new() };
        assert(headers.entries() =~= Seq::<(Seq<char>, Values)>::empty());
        headers
    }

    /// The number of entries.  No two of them have the same key.
    pub fn len(&self) -> (n: usize)
        ensures
            n == self.entries().len(),
            distinct_keys(self.entries()),
    {
        proof {
            use_type_invariant(self);
        }
        self.entries.len()
    }

    /// The key of the entry at `index`.
    pub fn key_at(&self, index: usize) -> (key: &String)
        requires
            index < self.entries().len(),
        ensures
            key@ == self.entries()[index as int].0,
    {
        &self.entries[index].0
    }

    /// The values of the entry at `index`.
    pub fn values_at(&self, index: usize) -> (values: &HttpStringList)
        requires
            index < self.entries().len(),
        ensures
            values@ == self.entries()[index as int].1,
    {
        &self.entries[index].1
    }

    /// Where `key` stands among the entries; their number if it is not there.
    fn find(&self, key: &String) -> (index: usize)
        ensures
            index == position_of(self.entries(), key@),
    {
        let mut index: usize = 0;
        assert(self.entries().skip(0) =~= self.entries());
        while index < self.entries.len()
            invariant
                index <= self.entries.len(),
                position_of(self.entries(), key@) == index + position_of(
                    self.entries().skip(index as int),
                    key@,
                ),
            decreases self.entries.len() - index,
        {
            let ghost rest = self.entries().skip(index as int);
            assert(rest[0] == self.entries()[index as int]);
            assert(rest.skip(1) =~= self.entries().skip(index + 1));
            if self.entries[index].0 == *key {
                return index;
            }
            index += 1;
        }
        index
    }

    /// The values of `key`, if it has any.
    pub fn get(&self, key: &String) -> (found: Option<&HttpStringList>)
        ensures
            match found {
                Some(values) => self@.contains_key(key@) && values@ == self@[key@],
                None => !self@.contains_key(key@),
            },
    {
        let index = self.find(key);
        if index < self.entries.len() {
            Some(&self.entries[index].1)
        } else {
            None
        }
    }

    /// Sets the values of `key`.  A key that is already there keeps its place
    /// among the entries; a new one goes to the end.
    pub fn insert(&mut self, key: String, values: HttpStringList)
        ensures
            final(self).entries() == with_entry(old(self).entries(), key@, values@),
            final(self)@ == old(self)@.insert(key@, values@),
    {
        proof {
            use_type_invariant(&*self);
            lemma_with_entry(self.entries(), key@, values@);
        }
        let index = self.find(&key);
        let mut taken = Headers::new();
        std::mem::swap(self, &mut taken);
        let Headers { entries: mut entries } = taken;
        let ghost before = entries@.map_values(|e: (String, HttpStringList)| (e.0@, e.1@));
        if index < entries.len() {
            entries[index] = (key, values);
        } else {
            entries.push((key, values));
        }
        let ghost after = entries@.map_values(|e: (String, HttpStringList)| (e.0@, e.1@));
        assert(after =~= with_entry(before, key@, values@));
        *self = Headers { entries };
    }
}

/// The position of a key is never behind the end.
pub proof fn lemma_position_bounds(entries: Entries, key: Seq<char>)
    ensures
        0 <= position_of(entries, key) <= entries.len(),
        has_key(entries, key) ==> entries[position_of(entries, key)].0 == key,
        forall|i: int| 0 <= i < position_of(entries, key) ==> (#[trigger] entries[i]).0 != key,
    decreases entries.len(),
{
    if entries.len() > 0 && entries[0].0 != key {
        let rest = entries.skip(1);
        lemma_position_bounds(rest, key);
        assert forall|i: int| 0 <= i < position_of(entries, key) implies (#[trigger] entries[i]).0
            != key by {
            if i > 0 {
                assert(entries[i] == rest[i - 1]);
            }
        }
    }
}

/// Where a key stands, given that it stands at `index` and nowhere before.
pub proof fn lemma_position_is(entries: Entries, key: Seq<char>, index: int)
    requires
        0 <= index < entries.len(),
        entries[index].0 == key,
        forall|i: int| 0 <= i < index ==> (#[trigger] entries[i]).0 != key,
    ensures
        position_of(entries, key) == index,
{
    lemma_position_bounds(entries, key);
    let found = position_of(entries, key);
    if found < index {
        assert(entries[found].0 != key);
    } else if found > index {
        assert(entries[index].0 != key);
    }
}

/// Setting a key keeps the keys distinct and does to the mapping what
/// `Map::insert` does.
pub proof fn lemma_with_entry(entries: Entries, key: Seq<char>, values: Values)
    requires
        distinct_keys(entries),
    ensures
        distinct_keys(with_entry(entries, key, values)),
        as_map(with_entry(entries, key, values)) == as_map(entries).insert(key, values),
{
    let after = with_entry(entries, key, values);
    lemma_position_bounds(entries, key);
    let at = position_of(entries, key);
    assert(distinct_keys(after)) by {
        assert forall|i: int, j: int| 0 <= i < j < after.len() implies (#[trigger] after[i]).0 != (
        #[trigger] after[j]).0 by {
            if has_key(entries, key) {
                assert(entries[i].0 != entries[j].0);
            } else {
                if j < entries.len() {
                    assert(entries[i].0 != entries[j].0);
                } else {
                    assert(entries[i].0 != key);
                }
            }
        }
    }
    assert forall|k: Seq<char>|
        has_key(after, k) == (k == key || has_key(entries, k)) && (has_key(after, k) ==> after[position_of(
            after,
            k,
        )].1 == (if k == key {
            values
        } else {
            entries[position_of(entries, k)].1
        })) by {
        lemma_position_bounds(entries, k);
        lemma_position_bounds(after, k);
        let was = position_of(entries, k);
        if k == key {
            if has_key(entries, key) {
                lemma_position_is(after, k, at);
            } else {
                assert forall|i: int| 0 <= i < entries.len() implies (#[trigger] after[i]).0
                    != k by {
                    assert(entries[i].0 != k);
                }
                lemma_position_is(after, k, entries.len() as int);
            }
        } else if has_key(entries, k) {
            assert forall|i: int| 0 <= i < was implies (#[trigger] after[i]).0 != k by {
                assert(entries[i].0 != k);
            }
            lemma_position_is(after, k, was);
        } else {
            if has_key(after, k) {
                let now = position_of(after, k);
                if now < entries.len() {
                    assert(entries[now].0 != k);
                }
            }
        }
    }
    assert(as_map(after) =~= as_map(entries).insert(key, values));
}

} // verus!
