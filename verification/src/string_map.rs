//! A map from texts to values.

use crate::text::same_text;
use vstd::prelude::*;

verus! {

/// A map keyed by text. No key occurs twice.
///
/// Meant for the short maps of a message: metadata, labels, headers. A look-up
/// walks the entries.
#[derive(Debug)]
pub struct StringMap<T> {
    entries: Vec<(String, T)>,
}

/// The headers of a message.
pub type Metadata = StringMap<String>;

/// No key occurs twice.
spec fn distinct_keys<T>(e: Seq<(String, T)>) -> bool {
    forall|i: int, j: int| 0 <= i < j < e.len() ==> (#[trigger] e[i]).0@ != (#[trigger] e[j]).0@
}

/// The map that a list of entries stands for; of equal keys the later one counts.
pub open spec fn entries_map<T>(e: Seq<(String, T)>) -> Map<Seq<char>, T>
    decreases e.len(),
{
    if e.len() == 0 {
        Map::empty()
    } else {
        entries_map(e.drop_last()).insert(e.last().0@, e.last().1)
    }
}

/// The list `e` holds every key of the map `m` once, with its value.
pub open spec fn enumerates<T>(e: Seq<(Seq<char>, T)>, m: Map<Seq<char>, T>) -> bool {
    &&& e.len() == m.len()
    &&& forall|i: int, j: int| 0 <= i < j < e.len() ==> (#[trigger] e[i]).0 != (#[trigger] e[j]).0
    &&& forall|i: int|
        0 <= i < e.len() ==> m.contains_key((#[trigger] e[i]).0) && m[e[i].0] == e[i].1
    &&& forall|k: Seq<char>|
        #[trigger] m.contains_key(k) ==> exists|i: int| 0 <= i < e.len() && (#[trigger] e[i]).0 == k
}

/// Facts about the map of a list of entries.
proof fn entries_map_facts<T>(e: Seq<(String, T)>)
    requires
        distinct_keys(e),
    ensures
        entries_map(e).dom().finite(),
        entries_map(e).len() == e.len(),
        forall|i: int|
            0 <= i < e.len() ==> entries_map(e).contains_key((#[trigger] e[i]).0@)
                && entries_map(e)[e[i].0@] == e[i].1,
        forall|k: Seq<char>| #[trigger]
            entries_map(e).contains_key(k) ==> exists|i: int|
                0 <= i < e.len() && (#[trigger] e[i]).0@ == k,
    decreases e.len(),
{
    if e.len() > 0 {
        let d = e.drop_last();
        entries_map_facts(d);
        assert(e == d.push(e.last()));
        if entries_map(d).contains_key(e.last().0@) {
            let i = choose|i: int| 0 <= i < d.len() && (#[trigger] d[i]).0@ == e.last().0@;
            assert(e[i].0@ != e[e.len() - 1].0@);
        }
        assert forall|i: int| 0 <= i < e.len() implies entries_map(e).contains_key(
            (#[trigger] e[i]).0@,
        ) && entries_map(e)[e[i].0@] == e[i].1 by {
            if i < e.len() - 1 {
                assert(d[i] == e[i]);
                assert(e[i].0@ != e[e.len() - 1].0@);
            }
        }
        assert forall|k: Seq<char>| #[trigger] entries_map(e).contains_key(k) implies exists|i: int|
            0 <= i < e.len() && (#[trigger] e[i]).0@ == k by {
            if k == e.last().0@ {
                assert(e[e.len() - 1].0@ == k);
            } else {
                let i = choose|i: int| 0 <= i < d.len() && (#[trigger] d[i]).0@ == k;
                assert(e[i].0@ == k);
            }
        }
    }
}

/// Replacing the value of an entry replaces it in the map.
proof fn entries_map_update<T>(e: Seq<(String, T)>, i: int, k: String, v: T)
    requires
        distinct_keys(e),
        0 <= i < e.len(),
        e[i].0@ == k@,
    ensures
        distinct_keys(e.update(i, (k, v))),
        entries_map(e.update(i, (k, v))) == entries_map(e).insert(k@, v),
{
    let u = e.update(i, (k, v));
    assert forall|p: int, q: int| 0 <= p < q < u.len() implies (#[trigger] u[p]).0@ != (#[trigger] u[q]).0@ by {
        assert(e[p].0@ != e[q].0@);
        assert(u[p].0@ == e[p].0@);
        assert(u[q].0@ == e[q].0@);
    }
    entries_map_facts(e);
    entries_map_facts(u);
    let m = entries_map(e).insert(k@, v);
    assert forall|key: Seq<char>| entries_map(u).contains_key(key) == m.contains_key(key) by {
        if m.contains_key(key) {
            assert(entries_map(e).contains_key(key));
            let j = choose|j: int| 0 <= j < e.len() && (#[trigger] e[j]).0@ == key;
            assert(u[j].0@ == key);
        }
        if entries_map(u).contains_key(key) {
            let j = choose|j: int| 0 <= j < u.len() && (#[trigger] u[j]).0@ == key;
            assert(e[j].0@ == key);
        }
    }
    assert forall|key: Seq<char>| m.contains_key(key) implies entries_map(u)[key] == m[key] by {
        let j = choose|j: int| 0 <= j < u.len() && (#[trigger] u[j]).0@ == key;
        assert(u[j].0@ == key);
        if j == i {
            assert(u[i].1 == v);
        } else {
            assert(e[j].0@ == key);
            assert(e[j].0@ != e[i].0@) by {
                if j < i {
                    assert(e[j].0@ != e[i].0@);
                } else {
                    assert(e[i].0@ != e[j].0@);
                }
            }
        }
    }
    assert(entries_map(u) =~= m);
}

/// Removing an entry removes its key from the map.
proof fn entries_map_remove<T>(e: Seq<(String, T)>, i: int)
    requires
        distinct_keys(e),
        0 <= i < e.len(),
    ensures
        distinct_keys(e.remove(i)),
        entries_map(e.remove(i)) == entries_map(e).remove(e[i].0@),
{
    let u = e.remove(i);
    assert forall|p: int, q: int| 0 <= p < q < u.len() implies (#[trigger] u[p]).0@ != (#[trigger] u[q]).0@ by {
        let p0 = if p < i { p } else { p + 1 };
        let q0 = if q < i { q } else { q + 1 };
        assert(u[p] == e[p0] && u[q] == e[q0]);
        assert(e[p0].0@ != e[q0].0@);
    }
    entries_map_facts(e);
    entries_map_facts(u);
    let key = e[i].0@;
    let m = entries_map(e).remove(key);
    assert forall|k: Seq<char>| entries_map(u).contains_key(k) == m.contains_key(k) by {
        if m.contains_key(k) {
            let j = choose|j: int| 0 <= j < e.len() && (#[trigger] e[j]).0@ == k;
            let j0 = if j < i { j } else { j - 1 };
            assert(u[j0] == e[j]);
            assert(u[j0].0@ == k);
        }
        if entries_map(u).contains_key(k) {
            let j = choose|j: int| 0 <= j < u.len() && (#[trigger] u[j]).0@ == k;
            let j0 = if j < i { j } else { j + 1 };
            assert(u[j] == e[j0]);
            if j0 < i {
                assert(e[j0].0@ != e[i].0@);
            } else {
                assert(e[i].0@ != e[j0].0@);
            }
        }
    }
    assert forall|k: Seq<char>| m.contains_key(k) implies entries_map(u)[k] == m[k] by {
        let j = choose|j: int| 0 <= j < u.len() && (#[trigger] u[j]).0@ == k;
        let j0 = if j < i { j } else { j + 1 };
        assert(u[j] == e[j0]);
    }
    assert(entries_map(u) =~= m);
}

impl<T> View for StringMap<T> {
    type V = Map<Seq<char>, T>;

    closed spec fn view(&self) -> Map<Seq<char>, T> {
        entries_map(self.entries@)
    }
}

impl<T> StringMap<T> {
    #[verifier::type_invariant]
    spec fn well_formed(self) -> bool {
        distinct_keys(self.entries@)
    }

    /// The entries in the order in which they are held.
    pub closed spec fn entries(self) -> Seq<(Seq<char>, T)> {
        Seq::new(self.entries@.len(), |i: int| (self.entries@[i].0@, self.entries@[i].1))
    }

    /// A map without entries.
    pub fn new() -> (r: Self)
        ensures
            r@ == Map::<Seq<char>, T>::empty(),
    {
        StringMap { entries: Vec::new() }
    }

    /// The number of entries.
    pub fn len(&self) -> (n: usize)
        ensures
            n == self@.len(),
            self@.dom().finite(),
            enumerates(self.entries(), self@),
    {
        proof {
            use_type_invariant(self);
            entries_map_facts(self.entries@);
            assert forall|k: Seq<char>| #[trigger] self@.contains_key(k) implies exists|i: int|
                0 <= i < self.entries().len() && (#[trigger] self.entries()[i]).0 == k by {
                let i = choose|i: int| 0 <= i < self.entries@.len() && (#[trigger] self.entries@[i]).0@ == k;
                assert(self.entries()[i].0 == k);
            }
        }
        self.entries.len()
    }

    /// Whether the map has no entries.
    pub fn is_empty(&self) -> (r: bool)
        ensures
            r == (self@ == Map::<Seq<char>, T>::empty()),
            r == (self@.len() == 0),
    {
        let n: usize = self.len();
        proof {
            if n != 0 {
                assert(self@.contains_key(self.entries()[0].0));
            } else {
                assert(self@ =~= Map::<Seq<char>, T>::empty());
            }
        }
        n == 0
    }

    /// The place of a key among the entries.
    fn position(&self, key: &str) -> (r: Option<usize>)
        ensures
            match r {
                Some(i) => i < self.entries@.len() && self.entries@[i as int].0@ == key@,
                None => forall|j: int|
                    0 <= j < self.entries@.len() ==> (#[trigger] self.entries@[j]).0@ != key@,
            },
    {
        let mut i: usize = 0;
        while i < self.entries.len()
            invariant
                i <= self.entries@.len(),
                forall|j: int| 0 <= j < i ==> (#[trigger] self.entries@[j]).0@ != key@,
            decreases self.entries@.len() - i,
        {
            if same_text(self.entries[i].0.as_str(), key) {
                return Some(i);
            }
            i += 1;
        }
        None
    }

    /// The value of a key.
    pub fn get(&self, key: &str) -> (r: Option<&T>)
        ensures
            match r {
                Some(v) => self@.contains_key(key@) && self@[key@] == *v,
                None => !self@.contains_key(key@),
            },
    {
        proof {
            use_type_invariant(self);
            entries_map_facts(self.entries@);
        }
        match self.position(key) {
            Some(i) => Some(&self.entries[i].1),
            None => None,
        }
    }

    /// Whether the map has a key.
    pub fn contains_key(&self, key: &str) -> (r: bool)
        ensures
            r == self@.contains_key(key@),
    {
        self.get(key).is_some()
    }

    /// Gives a key a value, in place of the one it had.
    pub fn insert(&mut self, key: String, value: T)
        ensures
            final(self)@ == old(self)@.insert(key@, value),
            final(self)@.dom().finite(),
            final(self)@.len() == if old(self)@.contains_key(key@) {
                old(self)@.len()
            } else {
                old(self)@.len() + 1
            },
    {
        proof {
            use_type_invariant(&*self);
            entries_map_facts(self.entries@);
        }
        let place = self.position(key.as_str());
        let mut e: Vec<(String, T)> = Vec::new();
        std::mem::swap(&mut e, &mut self.entries);
        match place {
            Some(i) => {
                proof {
                    entries_map_update(e@, i as int, key, value);
                }
                e[i] = (key, value);
            },
            None => {
                let ghost e0 = e@;
                e.push((key, value));
                assert(e@.drop_last() == e0);
                assert(distinct_keys(e@));
            },
        }
        self.entries = e;
    }

    /// Removes a key and hands out its value.
    pub fn remove(&mut self, key: &str) -> (r: Option<T>)
        ensures
            final(self)@ == old(self)@.remove(key@),
            match r {
                Some(v) => old(self)@.contains_key(key@) && old(self)@[key@] == v,
                None => !old(self)@.contains_key(key@),
            },
    {
        proof {
            use_type_invariant(&*self);
            entries_map_facts(self.entries@);
        }
        match self.position(key) {
            Some(i) => {
                let mut e: Vec<(String, T)> = Vec::new();
                std::mem::swap(&mut e, &mut self.entries);
                proof {
                    entries_map_remove(e@, i as int);
                }
                let (_, v) = e.remove(i);
                self.entries = e;
                Some(v)
            },
            None => {
                assert(self@ =~= self@.remove(key@));
                None
            },
        }
    }

    /// The key at a place.
    pub fn key_at(&self, i: usize) -> (r: &String)
        requires
            i < self.entries().len(),
        ensures
            r@ == self.entries()[i as int].0,
    {
        &self.entries[i].0
    }

    /// The value at a place.
    pub fn value_at(&self, i: usize) -> (r: &T)
        requires
            i < self.entries().len(),
        ensures
            *r == self.entries()[i as int].1,
    {
        &self.entries[i].1
    }

    /// Takes over all entries of `other`, whose values replace those of equal keys.
    pub fn extend(&mut self, other: StringMap<T>)
        ensures
            final(self)@ == old(self)@.union_prefer_right(other@),
    {
        let mut other = other;
        let ghost added = other.entries@;
        let mut rest: Vec<(String, T)> = Vec::new();
        std::mem::swap(&mut rest, &mut other.entries);
        let ghost base = self@;
        assert(base.union_prefer_right(Map::<Seq<char>, T>::empty()) =~= base);
        for entry in it: rest
            invariant
                it.seq() == added,
                self@ == base.union_prefer_right(entries_map(added.take(it.index()))),
        {
            let ghost head = added.take(it.index() + 1);
            assert(head.drop_last() == added.take(it.index()));
            let (key, value) = entry;
            self.insert(key, value);
            assert(self@ =~= base.union_prefer_right(entries_map(head)));
        }
        assert(added.take(added.len() as int) == added);
    }
}

impl<T> Default for StringMap<T> {
    fn default() -> (r: Self)
        ensures
            r@ == Map::<Seq<char>, T>::empty(),
    {
        Self::new()
    }
}

/// The map with the texts of the values.
pub open spec fn text_values(m: Map<Seq<char>, String>) -> Map<Seq<char>, Seq<char>> {
    m.map_values(|s: String| s@)
}

impl StringMap<String> {
    /// The map with the texts of the values.
    pub open spec fn texts(self) -> Map<Seq<char>, Seq<char>> {
        text_values(self@)
    }
}

/// The texts of a map with one more entry.
pub broadcast proof fn insert_in_texts(m: Map<Seq<char>, String>, key: Seq<char>, value: String)
    ensures
        #[trigger] text_values(m.insert(key, value)) == text_values(m).insert(key, value@),
{
    assert(text_values(m.insert(key, value)) =~= text_values(m).insert(key, value@));
}

/// The texts of two maps joined.
pub broadcast proof fn union_of_texts(a: Map<Seq<char>, String>, b: Map<Seq<char>, String>)
    ensures
        #[trigger] text_values(a.union_prefer_right(b)) == text_values(a).union_prefer_right(
            text_values(b),
        ),
{
    assert(text_values(a.union_prefer_right(b)) =~= text_values(a).union_prefer_right(
        text_values(b),
    ));
}

/// The texts of a map without entries.
pub broadcast proof fn texts_of_empty()
    ensures
        #[trigger] text_values(Map::<Seq<char>, String>::empty()) == Map::<
            Seq<char>,
            Seq<char>,
        >::empty(),
{
    assert(text_values(Map::<Seq<char>, String>::empty()) =~= Map::<Seq<char>, Seq<char>>::empty());
}

pub broadcast group group_texts {
    insert_in_texts,
    union_of_texts,
    texts_of_empty,
}

impl StringMap<String> {
    /// The entries as pairs.
    pub fn to_pairs(&self) -> (r: Vec<(String, String)>)
        ensures
            entries_map(r@) == self@,
    {
        let mut r: Vec<(String, String)> = Vec::new();
        let mut i: usize = 0;
        while i < self.entries.len()
            invariant
                i <= self.entries@.len(),
                r@ == self.entries@.take(i as int),
            decreases self.entries@.len() - i,
        {
            r.push((self.entries[i].0.clone(), self.entries[i].1.clone()));
            i += 1;
            assert(r@ == self.entries@.take(i as int));
        }
        assert(self.entries@.take(i as int) == self.entries@);
        r
    }
}

impl Clone for StringMap<String> {
    fn clone(&self) -> (r: Self)
        ensures
            r@ == self@,
    {
        let mut r: StringMap<String> = StringMap::new();
        let mut i: usize = 0;
        while i < self.entries.len()
            invariant
                i <= self.entries@.len(),
                r@ == entries_map(self.entries@.take(i as int)),
            decreases self.entries@.len() - i,
        {
            let ghost head = self.entries@.take(i + 1);
            assert(head.drop_last() == self.entries@.take(i as int));
            r.insert(self.entries[i].0.clone(), self.entries[i].1.clone());
            i += 1;
        }
        assert(self.entries@.take(i as int) == self.entries@);
        r
    }
}

} // verus!
