//! Vectors of items keyed by a string id, seen as maps from id to item.

use vstd::prelude::*;

verus! {

/// An item identified by a string key.
pub trait Keyed: Sized {
    spec fn key_view(&self) -> Seq<char>;

    fn key(&self) -> (r: &String)
        ensures
            r@ == self.key_view(),
    ;
}

/// No two items share a key.
pub open spec fn keys_unique<T: Keyed>(s: Seq<T>) -> bool {
    forall|i: int, j: int|
        0 <= i < s.len() && 0 <= j < s.len() && i != j ==> #[trigger] s[i].key_view()
            != #[trigger] s[j].key_view()
}

/// Some item has key `k`.
pub open spec fn has_key<T: Keyed>(s: Seq<T>, k: Seq<char>) -> bool {
    exists|i: int| 0 <= i < s.len() && #[trigger] s[i].key_view() == k
}

/// The position of the item with key `k` (meaningful when `has_key`).
pub open spec fn key_pos<T: Keyed>(s: Seq<T>, k: Seq<char>) -> int {
    choose|i: int| 0 <= i < s.len() && #[trigger] s[i].key_view() == k
}

/// The items, as a map from key to item.
pub open spec fn keyed_map<T: Keyed>(s: Seq<T>) -> Map<Seq<char>, T> {
    Map::new(|k: Seq<char>| has_key(s, k), |k: Seq<char>| s[key_pos(s, k)])
}

/// With unique keys, the item at `i` is the one the map gives for its key.
pub proof fn lemma_key_pos<T: Keyed>(s: Seq<T>, i: int)
    requires
        keys_unique(s),
        0 <= i < s.len(),
    ensures
        has_key(s, s[i].key_view()),
        key_pos(s, s[i].key_view()) == i,
        keyed_map(s).contains_key(s[i].key_view()),
        keyed_map(s)[s[i].key_view()] == s[i],
{
    let k = s[i].key_view();
    assert(has_key(s, k));
    let p = key_pos(s, k);
    if p != i {
        assert(s[p].key_view() != s[i].key_view());
    }
}

/// Returns the position of the item with key `k`.
pub fn find_key<T: Keyed>(v: &Vec<T>, k: &String) -> (r: Option<usize>)
    requires
        keys_unique(v@),
    ensures
        match r {
            Some(i) => i < v@.len() && v@[i as int].key_view() == k@ && keyed_map(v@).contains_key(k@)
                && keyed_map(v@)[k@] == v@[i as int],
            None => !has_key(v@, k@) && !keyed_map(v@).contains_key(k@),
        },
{
    let mut i: usize = 0;
    while i < v.len()
        invariant
            keys_unique(v@),
            i <= v@.len(),
            forall|j: int| 0 <= j < i ==> #[trigger] v@[j].key_view() != k@,
        decreases v.len() - i,
    {
        if *v[i].key() == *k {
            proof {
                lemma_key_pos(v@, i as int);
            }
            return Some(i);
        }
        i = i + 1;
    }
    None
}

/// Inserts `item`, replacing an item with the same key.
pub fn upsert_keyed<T: Keyed>(v: &mut Vec<T>, item: T)
    requires
        keys_unique(old(v)@),
    ensures
        keys_unique(final(v)@),
        keyed_map(final(v)@) == keyed_map(old(v)@).insert(item.key_view(), item),
{
    let ghost k = item.key_view();
    let ghost item_g = item;
    let kk = item.key().clone();
    match find_key(v, &kk) {
        Some(i) => {
            v.set(i, item);
            proof {
                let o = old(v)@;
                let n = v@;
                assert(n == o.update(i as int, item_g));
                assert(keys_unique(n)) by {
                    assert forall|a: int, b: int|
                        0 <= a < n.len() && 0 <= b < n.len() && a != b implies #[trigger] n[a].key_view()
                            != #[trigger] n[b].key_view() by {
                        if a != i && b != i {
                            assert(o[a].key_view() != o[b].key_view());
                        } else if a == i {
                            assert(o[a].key_view() != o[b].key_view());
                        } else {
                            assert(o[a].key_view() != o[b].key_view());
                        }
                    }
                }
                assert forall|key: Seq<char>| has_key(n, key) <==> (has_key(o, key) || key == k) by {
                    if has_key(n, key) {
                        let q = choose|q: int| 0 <= q < n.len() && #[trigger] n[q].key_view() == key;
                        if q != i {
                            assert(o[q].key_view() == key);
                        }
                    }
                    if has_key(o, key) {
                        let q = choose|q: int| 0 <= q < o.len() && #[trigger] o[q].key_view() == key;
                        if q != i {
                            assert(n[q].key_view() == key);
                        } else {
                            assert(n[q].key_view() == key);
                        }
                    }
                    if key == k {
                        assert(n[i as int].key_view() == key);
                    }
                }
                assert(keyed_map(n) =~= keyed_map(o).insert(k, item_g)) by {
                    assert forall|key: Seq<char>| #[trigger] keyed_map(n).contains_key(key) implies keyed_map(n)[key]
                        == keyed_map(o).insert(k, item_g)[key] by {
                        let q = choose|q: int| 0 <= q < n.len() && #[trigger] n[q].key_view() == key;
                        lemma_key_pos(n, q);
                        if q != i {
                            lemma_key_pos(o, q);
                        }
                    }
                }
            }
        },
        None => {
            v.push(item);
            proof {
                let o = old(v)@;
                let n = v@;
                assert(n == o.push(item_g));
                assert(keys_unique(n)) by {
                    assert forall|a: int, b: int|
                        0 <= a < n.len() && 0 <= b < n.len() && a != b implies #[trigger] n[a].key_view()
                            != #[trigger] n[b].key_view() by {
                        if a < o.len() && b < o.len() {
                            assert(o[a].key_view() != o[b].key_view());
                        } else if a < o.len() {
                            assert(o[a].key_view() != k) by {
                                if o[a].key_view() == k {
                                    assert(has_key(o, k));
                                }
                            }
                        } else {
                            assert(o[b].key_view() != k) by {
                                if o[b].key_view() == k {
                                    assert(has_key(o, k));
                                }
                            }
                        }
                    }
                }
                assert forall|key: Seq<char>| has_key(n, key) <==> (has_key(o, key) || key == k) by {
                    if has_key(n, key) {
                        let q = choose|q: int| 0 <= q < n.len() && #[trigger] n[q].key_view() == key;
                        if q < o.len() {
                            assert(o[q].key_view() == key);
                        }
                    }
                    if has_key(o, key) {
                        let q = choose|q: int| 0 <= q < o.len() && #[trigger] o[q].key_view() == key;
                        assert(n[q].key_view() == key);
                    }
                    if key == k {
                        assert(n[o.len() as int].key_view() == key);
                    }
                }
                assert(keyed_map(n) =~= keyed_map(o).insert(k, item_g)) by {
                    assert forall|key: Seq<char>| #[trigger] keyed_map(n).contains_key(key) implies keyed_map(n)[key]
                        == keyed_map(o).insert(k, item_g)[key] by {
                        let q = choose|q: int| 0 <= q < n.len() && #[trigger] n[q].key_view() == key;
                        lemma_key_pos(n, q);
                        if q < o.len() {
                            lemma_key_pos(o, q);
                        }
                    }
                }
            }
        },
    }
}

/// Removes the item with key `k`, if there is one.
pub fn remove_keyed<T: Keyed>(v: &mut Vec<T>, k: &String)
    requires
        keys_unique(old(v)@),
    ensures
        keys_unique(final(v)@),
        keyed_map(final(v)@) == keyed_map(old(v)@).remove(k@),
{
    match find_key(v, k) {
        Some(i) => {
            v.remove(i);
            proof {
                let o = old(v)@;
                let n = v@;
                assert(n == o.remove(i as int));
                assert(keys_unique(n)) by {
                    assert forall|a: int, b: int|
                        0 <= a < n.len() && 0 <= b < n.len() && a != b implies #[trigger] n[a].key_view()
                            != #[trigger] n[b].key_view() by {
                        let oa = if a < i { a } else { a + 1 };
                        let ob = if b < i { b } else { b + 1 };
                        assert(n[a] == o[oa]);
                        assert(n[b] == o[ob]);
                        assert(o[oa].key_view() != o[ob].key_view());
                    }
                }
                assert forall|key: Seq<char>| has_key(n, key) <==> (has_key(o, key) && key != k@) by {
                    if has_key(n, key) {
                        let q = choose|q: int| 0 <= q < n.len() && #[trigger] n[q].key_view() == key;
                        let oq = if q < i { q } else { q + 1 };
                        assert(n[q] == o[oq]);
                        assert(o[oq].key_view() == key);
                        if key == k@ {
                            assert(o[oq].key_view() == o[i as int].key_view());
                        }
                    }
                    if has_key(o, key) && key != k@ {
                        let q = choose|q: int| 0 <= q < o.len() && #[trigger] o[q].key_view() == key;
                        assert(q != i);
                        let nq = if q < i { q } else { q - 1 };
                        assert(n[nq] == o[q]);
                    }
                }
                assert(keyed_map(n) =~= keyed_map(o).remove(k@)) by {
                    assert forall|key: Seq<char>| #[trigger] keyed_map(n).contains_key(key) implies keyed_map(n)[key]
                        == keyed_map(o).remove(k@)[key] by {
                        let q = choose|q: int| 0 <= q < n.len() && #[trigger] n[q].key_view() == key;
                        lemma_key_pos(n, q);
                        let oq = if q < i { q } else { q + 1 };
                        assert(n[q] == o[oq]);
                        lemma_key_pos(o, oq);
                    }
                }
            }
        },
        None => {
            assert(keyed_map(v@) =~= keyed_map(old(v)@).remove(k@));
        },
    }
}

} // verus!
