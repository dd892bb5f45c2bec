//! A map from texts to values that keeps its entries in the order of insertion.
use vstd::prelude::*;
use crate::keyed::{
    distinct, lemma_table_at, lemma_table_push, lemma_table_remove, lemma_table_size,
    lemma_table_update, place, present, table,
};
use crate::text::chars::same;

verus! {

/// A map keyed by text. No key occurs twice; a key that is inserted again keeps its place.
#[derive(Debug)]
pub struct TextMap<V> {
    entries: Vec<(String, V)>,
}

/// The key of an entry.
pub open spec fn entry_key<V>() -> spec_fn((String, V)) -> Seq<char> {
    |e: (String, V)| e.0@
}

/// The value of an entry.
pub open spec fn entry_value<V>() -> spec_fn((String, V)) -> V {
    |e: (String, V)| e.1
}

/// The map that a list of entries stands for.
pub open spec fn map_of<V>(entries: Seq<(String, V)>) -> Map<Seq<char>, V> {
    table(entries, entry_key(), entry_value())
}

/// The views of the texts in a map.
pub open spec fn texts(m: Map<Seq<char>, String>) -> Map<Seq<char>, Seq<char>> {
    Map::new(|k: Seq<char>| m.contains_key(k), |k: Seq<char>| m[k]@)
}

impl<V> View for TextMap<V> {
    type V = Map<Seq<char>, V>;

    closed spec fn view(&self) -> Map<Seq<char>, V> {
        map_of(self.entries@)
    }
}

impl<V> TextMap<V> {
    /// No key occurs twice.
    #[verifier::type_invariant]
    spec fn wf(self) -> bool {
        distinct(self.entries@, entry_key())
    }

    /// The entries in the order of insertion.
    pub closed spec fn listed(self) -> Seq<(String, V)> {
        self.entries@
    }

    /// A map without entries.
    pub fn new() -> (r: Self)
        ensures
            r@ == Map::<Seq<char>, V>::empty(),
            r.listed() == Seq::<(String, V)>::empty(),
    {
        let r = TextMap { entries: Vec::new() };
        assert(r@ =~= Map::<Seq<char>, V>::empty());
        r
    }

    /// The entries in the order of insertion: their keys differ and they make up the map.
    pub fn entries(&self) -> (r: &Vec<(String, V)>)
        ensures
            r@ == self.listed(),
            distinct(r@, entry_key()),
            map_of(r@) == self@,
    {
        proof {
            use_type_invariant(self);
        }
        &self.entries
    }

    /// The position of the entry with a key.
    fn position(&self, key: &str) -> (r: Option<usize>)
        ensures
            match r {
                Some(i) => i < self.entries@.len() && self.entries@[i as int].0@ == key@,
                None => !present(self.entries@, entry_key(), key@),
            },
    {
        let mut i: usize = 0;
        while i < self.entries.len()
            invariant
                i <= self.entries@.len(),
                forall|j: int| 0 <= j < i ==> (#[trigger] self.entries@[j]).0@ != key@,
            decreases self.entries@.len() - i,
        {
            if same(self.entries[i].0.as_str(), key) {
                return Some(i);
            }
            i += 1;
        }
        None
    }

    /// The value under a key.
    pub fn get(&self, key: &str) -> (r: Option<&V>)
        ensures
            match r {
                Some(v) => self@.contains_key(key@) && *v == self@[key@],
                None => !self@.contains_key(key@),
            },
    {
        proof {
            use_type_invariant(self);
        }
        match self.position(key) {
            Some(i) => {
                proof {
                    lemma_table_at(self.entries@, entry_key(), entry_value(), i as int);
                }
                Some(&self.entries[i].1)
            },
            None => None,
        }
    }

    /// Whether a key is present.
    pub fn contains_key(&self, key: &str) -> (r: bool)
        ensures
            r == self@.contains_key(key@),
    {
        self.get(key).is_some()
    }

    /// Puts a value under a key and gives back the value that was there.
    pub fn insert(&mut self, key: String, value: V) -> (r: Option<V>)
        ensures
            final(self)@ == old(self)@.insert(key@, value),
            final(self)@.contains_key(key@),
            old(self)@.contains_key(key@) ==> final(self).listed().len() == old(
                self,
            ).listed().len(),
            !old(self)@.contains_key(key@) ==> final(self).listed() == old(self).listed().push(
                (key, value),
            ),
            match r {
                Some(v) => old(self)@.contains_key(key@) && v == old(self)@[key@],
                None => !old(self)@.contains_key(key@),
            },
    {
        proof {
            use_type_invariant(&*self);
        }
        let found: Option<usize> = self.position(key.as_str());
        let mut entries: Vec<(String, V)> = Vec::new();
        std::mem::swap(&mut entries, &mut self.entries);
        let r: Option<V> = match found {
            Some(i) => {
                let ghost before = entries@;
                let ghost x = (before[i as int].0, value);
                proof {
                    lemma_table_update(before, entry_key(), entry_value(), i as int, x);
                    lemma_table_at(before, entry_key(), entry_value(), i as int);
                }
                let mut slot: V = value;
                let mut entry: (String, V) = entries.remove(i);
                std::mem::swap(&mut slot, &mut entry.1);
                entries.insert(i, entry);
                assert(entries@ =~= before.update(i as int, x));
                Some(slot)
            },
            None => {
                proof {
                    lemma_table_push(entries@, entry_key(), entry_value(), (key, value));
                }
                entries.push((key, value));
                None
            },
        };
        self.entries = entries;
        r
    }

    /// Takes a key out of the map and gives back the value that was there.
    pub fn remove(&mut self, key: &str) -> (r: Option<V>)
        ensures
            final(self)@ == old(self)@.remove(key@),
            match r {
                Some(v) => old(self)@.contains_key(key@) && v == old(self)@[key@],
                None => !old(self)@.contains_key(key@),
            },
    {
        proof {
            use_type_invariant(&*self);
        }
        match self.position(key) {
            Some(i) => {
                let mut entries: Vec<(String, V)> = Vec::new();
                std::mem::swap(&mut entries, &mut self.entries);
                proof {
                    lemma_table_remove(entries@, entry_key(), entry_value(), i as int);
                    lemma_table_at(entries@, entry_key(), entry_value(), i as int);
                }
                let entry: (String, V) = entries.remove(i);
                self.entries = entries;
                Some(entry.1)
            },
            None => {
                assert(self@.remove(key@) =~= self@);
                None
            },
        }
    }

    /// The number of keys.
    pub fn len(&self) -> (r: usize)
        ensures
            r == self@.dom().len(),
            self@.dom().finite(),
    {
        proof {
            use_type_invariant(self);
            lemma_table_size(self.entries@, entry_key(), entry_value());
        }
        self.entries.len()
    }

    /// Whether there is no key.
    pub fn is_empty(&self) -> (r: bool)
        ensures
            r == (self@ == Map::<Seq<char>, V>::empty()),
            r == (self.listed().len() == 0),
    {
        proof {
            use_type_invariant(self);
            if self.entries@.len() > 0 {
                lemma_table_at(self.entries@, entry_key(), entry_value(), 0);
            } else {
                assert(self@ =~= Map::<Seq<char>, V>::empty());
            }
        }
        self.entries.len() == 0
    }

    /// The keys in the order of insertion.
    pub fn keys(&self) -> (r: Vec<String>)
        ensures
            r@.len() == self.listed().len(),
            forall|i: int| 0 <= i < r@.len() ==> #[trigger] r@[i] == self.listed()[i].0,
            forall|k: Seq<char>|
                self@.contains_key(k) == (exists|i: int| 0 <= i < r@.len() && (#[trigger] r@[i])@ == k),
    {
        proof {
            use_type_invariant(self);
        }
        let mut r: Vec<String> = Vec::new();
        let mut i: usize = 0;
        while i < self.entries.len()
            invariant
                i <= self.entries@.len(),
                r@.len() == i,
                forall|j: int| 0 <= j < i ==> #[trigger] r@[j] == self.entries@[j].0,
            decreases self.entries@.len() - i,
        {
            r.push(self.entries[i].0.clone());
            i += 1;
        }
        proof {
            assert forall|k: Seq<char>|
                self@.contains_key(k) == (exists|i: int| 0 <= i < r@.len() && (#[trigger] r@[i])@ == k) by {
                if present(self.entries@, entry_key(), k) {
                    let j = place(self.entries@, entry_key(), k);
                    assert(entry_key()(self.entries@[j]) == k);
                    assert(r@[j]@ == k);
                }
                if exists|i: int| 0 <= i < r@.len() && (#[trigger] r@[i])@ == k {
                    let j = choose|i: int| 0 <= i < r@.len() && (#[trigger] r@[i])@ == k;
                    assert(entry_key()(self.entries@[j]) == k);
                }
            }
        }
        r
    }
}

impl TextMap<String> {
    /// A map with the same entries in the same order.
    pub fn copy(&self) -> (r: Self)
        ensures
            r@ == self@,
            r.listed() == self.listed(),
    {
        proof {
            use_type_invariant(self);
        }
        let mut entries: Vec<(String, String)> = Vec::new();
        let mut i: usize = 0;
        while i < self.entries.len()
            invariant
                i <= self.entries@.len(),
                entries@ == self.entries@.take(i as int),
            decreases self.entries@.len() - i,
        {
            entries.push((self.entries[i].0.clone(), self.entries[i].1.clone()));
            i += 1;
            assert(entries@ =~= self.entries@.take(i as int));
        }
        assert(entries@ =~= self.entries@);
        TextMap { entries }
    }

    /// Puts every entry of another map into this one; its values win.
    pub fn extend(&mut self, other: &Self)
        ensures
            final(self)@ == old(self)@.union_prefer_right(other@),
    {
        proof {
            use_type_invariant(other);
        }
        let mut i: usize = 0;
        let ghost start = self@;
        let ghost others = other.entries@;
        assert(map_of(others.take(0)) =~= Map::<Seq<char>, String>::empty());
        assert(start.union_prefer_right(map_of(others.take(0))) =~= start);
        while i < other.entries.len()
            invariant
                i <= others.len(),
                others == other.entries@,
                distinct(others, entry_key()),
                self@ == start.union_prefer_right(map_of(others.take(i as int))),
            decreases others.len() - i,
        {
            let key: String = other.entries[i].0.clone();
            let value: String = other.entries[i].1.clone();
            proof {
                let head = others.take(i as int);
                let x = others[i as int];
                assert(distinct(head, entry_key())) by {
                    assert forall|a: int, b: int| 0 <= a < b < head.len() implies entry_key()(
                        #[trigger] head[a],
                    ) != entry_key()(#[trigger] head[b]) by {
                        assert(entry_key()(others[a]) != entry_key()(others[b]));
                    }
                }
                assert(!present(head, entry_key(), entry_key()(x))) by {
                    if present(head, entry_key(), entry_key()(x)) {
                        let j = place(head, entry_key(), entry_key()(x));
                        assert(entry_key()(head[j]) == entry_key()(x));
                        assert(entry_key()(others[j]) != entry_key()(others[i as int]));
                    }
                }
                lemma_table_push(head, entry_key(), entry_value(), x);
                assert(head.push(x) =~= others.take(i + 1));
            }
            self.insert(key, value);
            i += 1;
            assert(self@ =~= start.union_prefer_right(map_of(others.take(i as int))));
        }
        assert(others.take(others.len() as int) =~= others);
    }
}

/// What is put under a key is found there, in place of what was there before; what is taken away
/// is not found any more; both hand back what stood under the key; and no other key changes.
pub proof fn law_map_operations<V>(
    map: &TextMap<V>,
    key: &str,
    found: Option<&V>,
    has: bool,
    put: &mut TextMap<V>,
    name: String,
    value: V,
    was: Option<V>,
    taken: &mut TextMap<V>,
    gone: Option<V>,
    other: Seq<char>,
)
    requires
        call_ensures(TextMap::<V>::get, (map, key), found),
        call_ensures(TextMap::<V>::contains_key, (map, key), has),
        call_ensures(TextMap::<V>::insert, (put, name, value), was),
        call_ensures(TextMap::<V>::remove, (taken, key), gone),
    ensures
        found is Some <==> map@.contains_key(key@),
        found matches Some(v) ==> *v == map@[key@],
        has <==> map@.contains_key(key@),
        final(put)@.contains_key(name@) && final(put)@[name@] == value,
        was is Some <==> old(put)@.contains_key(name@),
        was matches Some(v) ==> v == old(put)@[name@],
        other != name@ ==> final(put)@.contains_key(other) == old(put)@.contains_key(other),
        other != name@ && old(put)@.contains_key(other) ==> final(put)@[other] == old(put)@[other],
        !final(taken)@.contains_key(key@),
        gone is Some <==> old(taken)@.contains_key(key@),
        gone matches Some(v) ==> v == old(taken)@[key@],
        other != key@ ==> final(taken)@.contains_key(other) == old(taken)@.contains_key(other),
        other != key@ && old(taken)@.contains_key(other) ==> final(taken)@[other] == old(
            taken,
        )@[other],
{
}

/// A map is as large as it has keys, lists each of them, and a copy of it has the same entries in
/// the same order.
pub proof fn law_map_size<V>(
    fresh: TextMap<V>,
    map: &TextMap<V>,
    n: usize,
    empty: bool,
    keys: Vec<String>,
    k: Seq<char>,
)
    requires
        call_ensures(TextMap::<V>::new, (), fresh),
        call_ensures(TextMap::<V>::len, (map,), n),
        call_ensures(TextMap::<V>::is_empty, (map,), empty),
        call_ensures(TextMap::<V>::keys, (map,), keys),
    ensures
        !fresh@.contains_key(k),
        n == map@.dom().len(),
        empty ==> !map@.contains_key(k),
        map@.contains_key(k) <==> exists|i: int|
            0 <= i < keys@.len() && (#[trigger] keys@[i])@ == k,
{
}

} // verus!
