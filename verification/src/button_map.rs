//! Maps keyed by button name, kept in insertion order.

use vstd::prelude::*;
use vstd::string::StringSliceAdditionalSpecFns;

verus! {

/// Whether two names are the same text.
pub fn same_name(a: &str, b: &str) -> (r: bool)
    ensures
        r == (a@ == b@),
{
    let x = a.as_bytes();
    let y = b.as_bytes();
    proof {
        vstd::utf8::encode_utf8_decode_utf8(a@);
        vstd::utf8::encode_utf8_decode_utf8(b@);
    }
    if x.len() != y.len() {
        return false;
    }
    let n = x.len();
    let mut i: usize = 0;
    while i < n
        invariant
            i <= n,
            n == x@.len(),
            n == y@.len(),
            x@ == a.spec_bytes(),
            y@ == b.spec_bytes(),
            forall|j: int| 0 <= j < i ==> x@[j] == y@[j],
        decreases n - i,
    {
        if x[i] != y[i] {
            return false;
        }
        i = i + 1;
    }
    assert(x@ =~= y@);
    true
}

/// One name with the value kept under it.
#[derive(Debug)]
pub struct Entry<V> {
    name: String,
    value: V,
}

/// A map from button names to values that remembers the order in which the
/// names were first inserted. No name is held twice.
#[derive(Debug)]
pub struct StrMap<V> {
    entries: Vec<Entry<V>>,
}

/// The names of `entries`, in order.
pub closed spec fn entry_names<V>(entries: Seq<Entry<V>>) -> Seq<Seq<char>> {
    Seq::new(entries.len(), |i: int| entries[i].name@)
}

impl<V> View for StrMap<V> {
    type V = Map<Seq<char>, V>;

    /// The map itself: each held name with its value.
    closed spec fn view(&self) -> Map<Seq<char>, V> {
        Map::new(
            |k: Seq<char>| self.names().contains(k),
            |k: Seq<char>| self.entries@[self.names().index_of(k)].value,
        )
    }
}

impl<V> StrMap<V> {
    #[verifier::type_invariant]
    spec fn names_are_distinct(self) -> bool {
        self.names().no_duplicates()
    }

    /// The held names in the order of their first insertion.
    pub closed spec fn names(&self) -> Seq<Seq<char>> {
        entry_names(self.entries@)
    }

    /// What an executable map always satisfies: the names are pairwise
    /// distinct, and they are exactly the keys of the view.
    pub open spec fn well_formed(&self) -> bool {
        &&& self.names().no_duplicates()
        &&& forall|k: Seq<char>| self@.contains_key(k) <==> self.names().contains(k)
    }

    /// An empty map.
    pub fn new() -> (r: Self)
        ensures
            r@ == Map::<Seq<char>, V>::empty(),
            r.names() == Seq::<Seq<char>>::empty(),
    {
        let entries: Vec<Entry<V>> = Vec::new();
        assert(entry_names(entries@) =~= Seq::<Seq<char>>::empty());
        let r = StrMap { entries };
        assert(r.names() =~= Seq::<Seq<char>>::empty());
        assert(r@ =~= Map::<Seq<char>, V>::empty());
        r
    }

    /// The number of names held.
    pub fn len(&self) -> (n: usize)
        ensures
            n == self.names().len(),
            self.well_formed(),
    {
        proof {
            use_type_invariant(self);
        }
        self.entries.len()
    }

    /// The position of `key` among the names, if it is held.
    fn position(&self, key: &str) -> (r: Option<usize>)
        ensures
            match r {
                Some(i) => i < self.names().len() && self.names()[i as int] == key@,
                None => !self.names().contains(key@),
            },
    {
        let n = self.entries.len();
        let mut i: usize = 0;
        while i < n
            invariant
                i <= n,
                n == self.entries@.len(),
                forall|j: int| 0 <= j < i ==> self.names()[j] != key@,
            decreases n - i,
        {
            if same_name(self.entries[i].name.as_str(), key) {
                return Some(i);
            }
            i = i + 1;
        }
        None
    }

    /// The `i`-th name in insertion order with its value, or `None` past the end.
    pub fn entry(&self, i: usize) -> (r: Option<(&String, &V)>)
        ensures
            self.well_formed(),
            match r {
                Some((name, value)) => i < self.names().len() && name@ == self.names()[i as int]
                    && *value == self@[name@],
                None => i >= self.names().len(),
            },
    {
        proof {
            use_type_invariant(self);
        }
        if i < self.entries.len() {
            let e = &self.entries[i];
            proof {
                self.names().index_of_first_ensures(self.names()[i as int]);
            }
            Some((&e.name, &e.value))
        } else {
            None
        }
    }

    /// The value kept under `key`, if the name is held.
    pub fn get(&self, key: &str) -> (r: Option<&V>)
        ensures
            self.well_formed(),
            match r {
                Some(v) => self@.contains_key(key@) && *v == self@[key@],
                None => !self@.contains_key(key@),
            },
    {
        proof {
            use_type_invariant(self);
        }
        match self.position(key) {
            Some(i) => {
                proof {
                    self.names().index_of_first_ensures(key@);
                }
                Some(&self.entries[i].value)
            },
            None => None,
        }
    }

    /// The held names, in insertion order.
    pub fn keys(&self) -> (r: Vec<String>)
        ensures
            self.well_formed(),
            r@.len() == self.names().len(),
            forall|i: int| 0 <= i < r@.len() ==> (#[trigger] r@[i])@ == self.names()[i],
    {
        proof {
            use_type_invariant(self);
        }
        let n = self.entries.len();
        let mut names: Vec<String> = Vec::new();
        let mut i: usize = 0;
        while i < n
            invariant
                i <= n,
                n == self.entries@.len(),
                names@.len() == i,
                forall|j: int| 0 <= j < i ==> (#[trigger] names@[j])@ == self.names()[j],
            decreases n - i,
        {
            names.push(self.entries[i].name.clone());
            i = i + 1;
        }
        names
    }

    /// Whether `key` is held.
    pub fn contains_key(&self, key: &str) -> (r: bool)
        ensures
            self.well_formed(),
            r == self@.contains_key(key@),
    {
        proof {
            use_type_invariant(self);
        }
        self.position(key).is_some()
    }

    /// Keeps `value` under `key`. A name that is already held keeps its place
    /// and gets the new value; a new name goes to the end.
    pub fn insert(&mut self, key: String, value: V)
        ensures
            final(self)@ == old(self)@.insert(key@, value),
            final(self).names() == if old(self).names().contains(key@) {
                old(self).names()
            } else {
                old(self).names().push(key@)
            },
            final(self).well_formed(),
    {
        proof {
            use_type_invariant(&*self);
        }
        let ghost before = *self;
        let ghost k = key@;
        let found = self.position(key.as_str());
        let mut entries: Vec<Entry<V>> = Vec::new();
        core::mem::swap(&mut self.entries, &mut entries);
        match found {
            Some(i) => {
                entries.set(i, Entry { name: key, value });
                assert(entry_names(entries@) =~= before.names());
                self.entries = entries;
                assert(self.names() =~= before.names());
                assert(self@ =~= before@.insert(k, value)) by {
                    before.names().index_of_first_ensures(k);
                    assert forall|q: Seq<char>| before.names().contains(q) implies #[trigger] self@[q]
                        == before@.insert(k, value)[q] by {
                        before.names().index_of_first_ensures(q);
                    }
                }
            },
            None => {
                entries.push(Entry { name: key, value });
                assert(entry_names(entries@) =~= before.names().push(k));
                self.entries = entries;
                assert(self@ =~= before@.insert(k, value)) by {
                    assert forall|q: Seq<char>| self.names().contains(q) implies #[trigger] self@[q]
                        == before@.insert(k, value)[q] by {
                        self.names().index_of_first_ensures(q);
                        if q != k {
                            let j = self.names().index_of(q);
                            assert(before.names()[j] == q);
                            before.names().index_of_first_ensures(q);
                        }
                    }
                    assert forall|q: Seq<char>| self.names().contains(q) <==> before.names().contains(q)
                        || q == k by {
                        if before.names().contains(q) {
                            let j = before.names().index_of(q);
                            before.names().index_of_first_ensures(q);
                            assert(self.names()[j] == q);
                        }
                        if q == k {
                            assert(self.names()[before.names().len() as int] == k);
                        }
                    }
                }
            },
        }
    }
}

impl StrMap<String> {
    /// The map with its values as texts.
    pub open spec fn text(&self) -> Map<Seq<char>, Seq<char>> {
        Map::new(|k: Seq<char>| self@.contains_key(k), |k: Seq<char>| self@[k]@)
    }
}

impl StrMap<u8> {
    /// Whether every name of `self` is held by `other` with the same value.
    fn within(&self, other: &StrMap<u8>) -> (r: bool)
        ensures
            r == forall|k: Seq<char>| #[trigger]
                self@.contains_key(k) ==> other@.contains_key(k) && other@[k] == self@[k],
    {
        let n = self.len();
        let mut i: usize = 0;
        while i < n
            invariant
                i <= n,
                n == self.names().len(),
                self.well_formed(),
                forall|j: int|
                    0 <= j < i ==> other@.contains_key(#[trigger] self.names()[j])
                        && other@[self.names()[j]] == self@[self.names()[j]],
            decreases n - i,
        {
            if let Some((name, value)) = self.entry(i) {
                let found = match other.get(name.as_str()) {
                    Some(v) => *v == *value,
                    None => false,
                };
                if !found {
                    assert(self.names().contains(self.names()[i as int]));
                    return false;
                }
            }
            i = i + 1;
        }
        assert forall|k: Seq<char>| #[trigger] self@.contains_key(k) implies other@.contains_key(k)
            && other@[k] == self@[k] by {
            let j = self.names().index_of(k);
            self.names().index_of_first_ensures(k);
            assert(self.names()[j] == k);
        }
        true
    }

    /// Whether two maps hold the same names with the same values, in whatever
    /// order.
    pub fn same_entries(&self, other: &StrMap<u8>) -> (r: bool)
        ensures
            r == (self@ == other@),
    {
        let r = self.within(other) && other.within(self);
        if r {
            assert(self@ =~= other@);
        }
        r
    }
}

impl Clone for StrMap<u8> {
    /// A copy with the same names, in the same order, and the same values.
    fn clone(&self) -> (r: Self)
        ensures
            r@ == self@,
            r.names() == self.names(),
    {
        proof {
            use_type_invariant(self);
        }
        let n = self.entries.len();
        let mut entries: Vec<Entry<u8>> = Vec::new();
        let mut i: usize = 0;
        while i < n
            invariant
                i <= n,
                n == self.entries@.len(),
                entries@.len() == i,
                forall|j: int|
                    0 <= j < i ==> (#[trigger] entries@[j]).name@ == self.entries@[j].name@
                        && entries@[j].value == self.entries@[j].value,
            decreases n - i,
        {
            let e = &self.entries[i];
            entries.push(Entry { name: e.name.clone(), value: e.value });
            i = i + 1;
        }
        assert(entry_names(entries@) =~= self.names());
        let r = StrMap { entries };
        assert(r@ =~= self@);
        r
    }
}

impl Clone for StrMap<String> {
    /// A copy with the same names, in the same order, and the same values.
    fn clone(&self) -> (r: Self)
        ensures
            r@ == self@,
            r.names() == self.names(),
    {
        proof {
            use_type_invariant(self);
        }
        let n = self.entries.len();
        let mut entries: Vec<Entry<String>> = Vec::new();
        let mut i: usize = 0;
        while i < n
            invariant
                i <= n,
                n == self.entries@.len(),
                entries@.len() == i,
                forall|j: int|
                    0 <= j < i ==> (#[trigger] entries@[j]).name@ == self.entries@[j].name@
                        && entries@[j].value == self.entries@[j].value,
            decreases n - i,
        {
            let e = &self.entries[i];
            entries.push(Entry { name: e.name.clone(), value: e.value.clone() });
            i = i + 1;
        }
        assert(entry_names(entries@) =~= self.names());
        let r = StrMap { entries };
        assert(r@ =~= self@);
        r
    }
}

} // verus!
