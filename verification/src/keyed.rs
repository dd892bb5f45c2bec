//! Lists whose elements carry a key, seen as maps.
use vstd::prelude::*;

verus! {

/// Whether no two elements have the same key.
pub open spec fn distinct<T, K>(s: Seq<T>, key: spec_fn(T) -> K) -> bool {
    forall|i: int, j: int| 0 <= i < j < s.len() ==> key(#[trigger] s[i]) != key(#[trigger] s[j])
}

/// Whether some element has key `k`.
pub open spec fn present<T, K>(s: Seq<T>, key: spec_fn(T) -> K, k: K) -> bool {
    exists|i: int| 0 <= i < s.len() && key(#[trigger] s[i]) == k
}

/// The position of an element with key `k`.
pub open spec fn place<T, K>(s: Seq<T>, key: spec_fn(T) -> K, k: K) -> int {
    choose|i: int| 0 <= i < s.len() && key(#[trigger] s[i]) == k
}

/// The map from each key to the value of the element that has it.
pub open spec fn table<T, K, V>(s: Seq<T>, key: spec_fn(T) -> K, val: spec_fn(T) -> V) -> Map<
    K,
    V,
> {
    Map::new(|k: K| present(s, key, k), |k: K| val(s[place(s, key, k)]))
}

/// With `x` put in place of the element that has its key, or at the end if none has.
pub open spec fn put<T, K>(s: Seq<T>, key: spec_fn(T) -> K, x: T) -> Seq<T> {
    if present(s, key, key(x)) {
        s.update(place(s, key, key(x)), x)
    } else {
        s.push(x)
    }
}

/// With distinct keys an element is where its key says.
pub proof fn lemma_place<T, K>(s: Seq<T>, key: spec_fn(T) -> K, i: int)
    requires
        distinct(s, key),
        0 <= i < s.len(),
    ensures
        present(s, key, key(s[i])),
        place(s, key, key(s[i])) == i,
{
    let k = key(s[i]);
    assert(present(s, key, k));
    let j = place(s, key, k);
    assert(0 <= j < s.len() && key(s[j]) == k);
    if i < j {
        assert(key(s[i]) != key(s[j]));
    } else if j < i {
        assert(key(s[j]) != key(s[i]));
    }
}

/// With distinct keys the map holds each element's value under its key.
pub proof fn lemma_table_at<T, K, V>(s: Seq<T>, key: spec_fn(T) -> K, val: spec_fn(T) -> V, i: int)
    requires
        distinct(s, key),
        0 <= i < s.len(),
    ensures
        table(s, key, val).contains_key(key(s[i])),
        table(s, key, val)[key(s[i])] == val(s[i]),
{
    lemma_place(s, key, i);
}

/// Elements that keep their keys keep the keys of the map.
pub proof fn lemma_same_keys<T, K, V>(
    s: Seq<T>,
    t: Seq<T>,
    key: spec_fn(T) -> K,
    val: spec_fn(T) -> V,
)
    requires
        distinct(s, key),
        s.len() == t.len(),
        forall|i: int| 0 <= i < s.len() ==> key(#[trigger] t[i]) == key(s[i]),
    ensures
        distinct(t, key),
        table(t, key, val).dom() == table(s, key, val).dom(),
{
    assert forall|a: int, b: int| 0 <= a < b < t.len() implies key(#[trigger] t[a]) != key(
        #[trigger] t[b],
    ) by {
        assert(key(s[a]) != key(s[b]));
    }
    assert forall|k: K| present(s, key, k) == present(t, key, k) by {
        if present(s, key, k) {
            let j = place(s, key, k);
            assert(key(t[j]) == k);
        }
        if present(t, key, k) {
            let j = place(t, key, k);
            assert(key(s[j]) == k);
        }
    }
    assert(table(t, key, val).dom() =~= table(s, key, val).dom());
}

/// Replacing an element by one with the same key replaces its value in the map.
pub proof fn lemma_table_update<T, K, V>(
    s: Seq<T>,
    key: spec_fn(T) -> K,
    val: spec_fn(T) -> V,
    i: int,
    x: T,
)
    requires
        distinct(s, key),
        0 <= i < s.len(),
        key(x) == key(s[i]),
    ensures
        distinct(s.update(i, x), key),
        table(s.update(i, x), key, val) == table(s, key, val).insert(key(x), val(x)),
        put(s, key, x) == s.update(i, x),
{
    let t = s.update(i, x);
    let want = table(s, key, val).insert(key(x), val(x));
    lemma_same_keys(s, t, key, val);
    lemma_place(s, key, i);
    assert(table(t, key, val).dom() =~= want.dom());
    assert forall|k: K| #[trigger] table(t, key, val).contains_key(k) implies table(t, key, val)[k]
        == want[k] by {
        let j = place(t, key, k);
        assert(key(t[j]) == k);
        lemma_table_at(t, key, val, j);
        lemma_table_at(s, key, val, j);
        lemma_table_at(t, key, val, i);
    }
    assert(table(t, key, val) =~= want);
}

/// Elements that keep their keys and change their values by a function change the values of
/// the map by it.
pub proof fn lemma_table_map<T, K, V>(
    s: Seq<T>,
    t: Seq<T>,
    key: spec_fn(T) -> K,
    val: spec_fn(T) -> V,
    f: spec_fn(V) -> V,
)
    requires
        distinct(s, key),
        s.len() == t.len(),
        forall|i: int|
            0 <= i < s.len() ==> key(#[trigger] t[i]) == key(s[i]) && val(t[i]) == f(val(s[i])),
    ensures
        distinct(t, key),
        table(t, key, val) == table(s, key, val).map_values(f),
{
    lemma_same_keys(s, t, key, val);
    let want = table(s, key, val).map_values(f);
    assert forall|k: K| #[trigger] table(t, key, val).contains_key(k) implies table(t, key, val)[k]
        == want[k] by {
        let j = place(t, key, k);
        assert(key(t[j]) == k);
        lemma_table_at(t, key, val, j);
        lemma_table_at(s, key, val, j);
    }
    assert(table(t, key, val) =~= want);
}

/// Adding an element with a new key adds that key to the map.
pub proof fn lemma_table_push<T, K, V>(s: Seq<T>, key: spec_fn(T) -> K, val: spec_fn(T) -> V, x: T)
    requires
        distinct(s, key),
        !present(s, key, key(x)),
    ensures
        distinct(s.push(x), key),
        table(s.push(x), key, val) == table(s, key, val).insert(key(x), val(x)),
        put(s, key, x) == s.push(x),
{
    let t = s.push(x);
    let want = table(s, key, val).insert(key(x), val(x));
    let n = s.len() as int;
    assert forall|a: int, b: int| 0 <= a < b < t.len() implies key(#[trigger] t[a]) != key(
        #[trigger] t[b],
    ) by {
        assert(t[a] == s[a]);
        if b < n {
            assert(t[b] == s[b]);
        }
    }
    assert forall|k: K| present(t, key, k) == (present(s, key, k) || k == key(x)) by {
        if present(t, key, k) {
            let j = place(t, key, k);
            if j < n {
                assert(key(s[j]) == k);
            }
        }
        if present(s, key, k) {
            let j = place(s, key, k);
            assert(key(t[j]) == k);
        }
        assert(key(t[n]) == key(x));
    }
    assert(table(t, key, val).dom() =~= want.dom());
    assert forall|k: K| #[trigger] table(t, key, val).contains_key(k) implies table(t, key, val)[k]
        == want[k] by {
        let j = place(t, key, k);
        assert(key(t[j]) == k);
        lemma_table_at(t, key, val, j);
        if j < n {
            assert(s[j] == t[j]);
            lemma_table_at(s, key, val, j);
        }
    }
    assert(table(t, key, val) =~= want);
}

/// Inserting an element with a new key anywhere adds that key to the map.
pub proof fn lemma_table_insert<T, K, V>(
    s: Seq<T>,
    key: spec_fn(T) -> K,
    val: spec_fn(T) -> V,
    i: int,
    x: T,
)
    requires
        distinct(s, key),
        !present(s, key, key(x)),
        0 <= i <= s.len(),
    ensures
        distinct(s.insert(i, x), key),
        table(s.insert(i, x), key, val) == table(s, key, val).insert(key(x), val(x)),
{
    let t = s.insert(i, x);
    assert forall|a: int, b: int| 0 <= a < b < t.len() implies key(#[trigger] t[a]) != key(
        #[trigger] t[b],
    ) by {
        if a != i && b != i {
            let u = if a < i { a } else { a - 1 };
            let v = if b < i { b } else { b - 1 };
            assert(t[a] == s[u] && t[b] == s[v]);
            assert(key(s[u]) != key(s[v]));
        } else if a == i {
            assert(t[b] == s[b - 1]);
        } else {
            assert(t[a] == s[a]);
        }
    }
    assert(t.remove(i) =~= s);
    assert(t[i] == x);
    lemma_table_remove(t, key, val, i);
    lemma_table_at(t, key, val, i);
    assert(table(t, key, val) =~= table(s, key, val).insert(key(x), val(x)));
}

/// Removing an element removes its key from the map.
pub proof fn lemma_table_remove<T, K, V>(
    s: Seq<T>,
    key: spec_fn(T) -> K,
    val: spec_fn(T) -> V,
    i: int,
)
    requires
        distinct(s, key),
        0 <= i < s.len(),
    ensures
        distinct(s.remove(i), key),
        table(s.remove(i), key, val) == table(s, key, val).remove(key(s[i])),
{
    let t = s.remove(i);
    let want = table(s, key, val).remove(key(s[i]));
    assert forall|a: int| 0 <= a < t.len() implies #[trigger] t[a] == s[if a < i {
        a
    } else {
        a + 1
    }] by {}
    assert forall|a: int, b: int| 0 <= a < b < t.len() implies key(#[trigger] t[a]) != key(
        #[trigger] t[b],
    ) by {
        let x = if a < i { a } else { a + 1 };
        let y = if b < i { b } else { b + 1 };
        assert(key(s[x]) != key(s[y]));
    }
    assert forall|k: K| present(t, key, k) == (present(s, key, k) && k != key(s[i])) by {
        if present(t, key, k) {
            let j = place(t, key, k);
            let x = if j < i { j } else { j + 1 };
            assert(key(s[x]) == k);
            if x < i {
                assert(key(s[x]) != key(s[i]));
            } else {
                assert(key(s[i]) != key(s[x]));
            }
        }
        if present(s, key, k) && k != key(s[i]) {
            let j = place(s, key, k);
            assert(key(t[if j < i { j } else { j - 1 }]) == k);
        }
    }
    assert(table(t, key, val).dom() =~= want.dom());
    assert forall|k: K| #[trigger] table(t, key, val).contains_key(k) implies table(t, key, val)[k]
        == want[k] by {
        let j = place(t, key, k);
        assert(key(t[j]) == k);
        lemma_table_at(t, key, val, j);
        lemma_table_at(s, key, val, if j < i { j } else { j + 1 });
    }
    assert(table(t, key, val) =~= want);
}

/// A list with distinct keys has as many elements as its map has keys.
pub proof fn lemma_table_size<T, K, V>(s: Seq<T>, key: spec_fn(T) -> K, val: spec_fn(T) -> V)
    requires
        distinct(s, key),
    ensures
        table(s, key, val).dom().finite(),
        table(s, key, val).dom().len() == s.len(),
    decreases s.len(),
{
    if s.len() == 0 {
        assert(table(s, key, val).dom() =~= Set::<K>::empty());
    } else {
        let init = s.drop_last();
        let last = s.last();
        assert(distinct(init, key)) by {
            assert forall|i: int, j: int| 0 <= i < j < init.len() implies key(#[trigger] init[i])
                != key(#[trigger] init[j]) by {
                assert(key(s[i]) != key(s[j]));
            }
        }
        lemma_table_size(init, key, val);
        assert(!present(init, key, key(last))) by {
            if present(init, key, key(last)) {
                let j = place(init, key, key(last));
                assert(key(init[j]) == key(last));
                assert(key(s[j]) != key(s[s.len() - 1]));
            }
        }
        lemma_table_push(init, key, val, last);
        assert(init.push(last) =~= s);
        assert(table(s, key, val).dom() =~= table(init, key, val).dom().insert(key(last)));
    }
}

} // verus!
