use vstd::prelude::*;

verus! {

/// Items that are looked up by a string key, such as a client by its id.
pub trait Keyed {
    spec fn key(&self) -> Seq<char>;

    fn key_str(&self) -> (r: &str)
        ensures
            r@ == self.key(),
    ;
}

/// Index of the item with key `k`, if there is one.
pub fn find_keyed<T: Keyed>(v: &Vec<T>, k: &str) -> (r: Option<usize>)
    requires
        keys_distinct(v@),
    ensures
        match r {
            Some(i) => i < v@.len() && v@[i as int].key() == k@ && keyed_map(v@).dom().contains(k@)
                && keyed_map(v@)[k@] == v@[i as int],
            None => !keyed_map(v@).dom().contains(k@) && !has_key(v@, k@),
        },
{
    let mut i: usize = 0;
    while i < v.len()
        invariant
            i <= v@.len(),
            keys_distinct(v@),
            forall|j: int| 0 <= j < i ==> (#[trigger] v@[j]).key() != k@,
        decreases v@.len() - i,
    {
        if crate::text::str_eq(v[i].key_str(), k) {
            proof {
                lemma_keyed_map_at(v@, i as int);
            }
            return Some(i);
        }
        i = i + 1;
    }
    proof {
        lemma_keyed_map_absent(v@, k@);
        lemma_keyed_map_dom(v@, k@);
    }
    None
}

/// No two items of `s` share a key.
pub open spec fn keys_distinct<T: Keyed>(s: Seq<T>) -> bool {
    forall|i: int, j: int| 0 <= i < j < s.len() ==> #[trigger] s[i].key() != #[trigger] s[j].key()
}

/// The items of `s` as a map from key to item.
pub open spec fn keyed_map<T: Keyed>(s: Seq<T>) -> Map<Seq<char>, T>
    decreases s.len(),
{
    if s.len() == 0 {
        Map::empty()
    } else {
        keyed_map(s.drop_last()).insert(s.last().key(), s.last())
    }
}

pub open spec fn has_key<T: Keyed>(s: Seq<T>, k: Seq<char>) -> bool {
    exists|i: int| 0 <= i < s.len() && #[trigger] s[i].key() == k
}

pub proof fn lemma_keyed_map_dom<T: Keyed>(s: Seq<T>, k: Seq<char>)
    ensures
        keyed_map(s).dom().contains(k) <==> has_key(s, k),
    decreases s.len(),
{
    if s.len() > 0 {
        lemma_keyed_map_dom(s.drop_last(), k);
        if has_key(s, k) && s.last().key() != k {
            let i = choose|i: int| 0 <= i < s.len() && #[trigger] s[i].key() == k;
            assert(s.drop_last()[i].key() == k);
        }
        if has_key(s.drop_last(), k) {
            let i = choose|i: int| 0 <= i < s.drop_last().len() && #[trigger] s.drop_last()[i].key() == k;
            assert(s[i].key() == k);
        }
        if s.last().key() == k {
            assert(s[s.len() - 1].key() == k);
        }
    }
}

pub proof fn lemma_keyed_map_at<T: Keyed>(s: Seq<T>, i: int)
    requires
        keys_distinct(s),
        0 <= i < s.len(),
    ensures
        keyed_map(s).dom().contains(s[i].key()),
        keyed_map(s)[s[i].key()] == s[i],
    decreases s.len(),
{
    lemma_keyed_map_dom(s, s[i].key());
    if i < s.len() - 1 {
        assert(s.drop_last()[i] == s[i]);
        assert(keys_distinct(s.drop_last())) by {
            assert forall|a: int, b: int| 0 <= a < b < s.drop_last().len() implies
                #[trigger] s.drop_last()[a].key() != #[trigger] s.drop_last()[b].key() by {
                assert(s.drop_last()[a] == s[a] && s.drop_last()[b] == s[b]);
            }
        }
        lemma_keyed_map_at(s.drop_last(), i);
        assert(s[i].key() != s[s.len() - 1].key());
    }
}

/// A key that no item of `s` has is not in the map.
pub proof fn lemma_keyed_map_absent<T: Keyed>(s: Seq<T>, k: Seq<char>)
    requires
        forall|i: int| 0 <= i < s.len() ==> #[trigger] s[i].key() != k,
    ensures
        !keyed_map(s).dom().contains(k),
{
    lemma_keyed_map_dom(s, k);
}

pub proof fn lemma_keys_distinct_update<T: Keyed>(s: Seq<T>, i: int, x: T)
    requires
        keys_distinct(s),
        0 <= i < s.len(),
        x.key() == s[i].key(),
    ensures
        keys_distinct(s.update(i, x)),
{
    let t = s.update(i, x);
    assert forall|a: int, b: int| 0 <= a < b < t.len() implies #[trigger] t[a].key()
        != #[trigger] t[b].key() by {
        assert(s[a].key() != s[b].key());
    }
}

pub proof fn lemma_keyed_map_update<T: Keyed>(s: Seq<T>, i: int, x: T)
    requires
        keys_distinct(s),
        0 <= i < s.len(),
        x.key() == s[i].key(),
    ensures
        keys_distinct(s.update(i, x)),
        keyed_map(s.update(i, x)) == keyed_map(s).insert(x.key(), x),
{
    let t = s.update(i, x);
    lemma_keys_distinct_update(s, i, x);
    assert forall|k: Seq<char>| #[trigger] keyed_map(t).dom().contains(k) <==> keyed_map(s).insert(
        x.key(),
        x,
    ).dom().contains(k) by {
        lemma_keyed_map_dom(t, k);
        lemma_keyed_map_dom(s, k);
        if has_key(t, k) {
            let j = choose|j: int| 0 <= j < t.len() && #[trigger] t[j].key() == k;
            if j != i {
                assert(s[j].key() == k);
            }
        }
        if has_key(s, k) {
            let j = choose|j: int| 0 <= j < s.len() && #[trigger] s[j].key() == k;
            if j != i {
                assert(t[j].key() == k);
            } else {
                assert(t[i].key() == k);
            }
        }
        if k == x.key() {
            assert(t[i].key() == k);
        }
    }
    assert forall|k: Seq<char>| #[trigger] keyed_map(t).dom().contains(k) implies keyed_map(t)[k]
        == keyed_map(s).insert(x.key(), x)[k] by {
        lemma_keyed_map_dom(t, k);
        let j = choose|j: int| 0 <= j < t.len() && #[trigger] t[j].key() == k;
        lemma_keyed_map_at(t, j);
        if j != i {
            lemma_keyed_map_at(s, j);
        }
    }
    assert(keyed_map(t) =~= keyed_map(s).insert(x.key(), x));
}

pub proof fn lemma_keyed_map_push<T: Keyed>(s: Seq<T>, x: T)
    requires
        keys_distinct(s),
        !has_key(s, x.key()),
    ensures
        keys_distinct(s.push(x)),
        keyed_map(s.push(x)) == keyed_map(s).insert(x.key(), x),
{
    let t = s.push(x);
    assert forall|a: int, b: int| 0 <= a < b < t.len() implies #[trigger] t[a].key()
        != #[trigger] t[b].key() by {
        if b == s.len() {
            assert(s[a].key() == t[a].key());
        } else {
            assert(s[a].key() != s[b].key());
        }
    }
    assert(t.drop_last() == s);
}

pub proof fn lemma_keyed_map_remove<T: Keyed>(s: Seq<T>, i: int)
    requires
        keys_distinct(s),
        0 <= i < s.len(),
    ensures
        keys_distinct(s.remove(i)),
        keyed_map(s.remove(i)) == keyed_map(s).remove(s[i].key()),
{
    let t = s.remove(i);
    let k0 = s[i].key();
    assert forall|a: int, b: int| 0 <= a < b < t.len() implies #[trigger] t[a].key()
        != #[trigger] t[b].key() by {
        let a2 = if a < i { a } else { a + 1 };
        let b2 = if b < i { b } else { b + 1 };
        assert(t[a] == s[a2] && t[b] == s[b2]);
        assert(s[a2].key() != s[b2].key());
    }
    assert forall|k: Seq<char>| #[trigger] keyed_map(t).dom().contains(k) <==> keyed_map(
        s,
    ).remove(k0).dom().contains(k) by {
        lemma_keyed_map_dom(t, k);
        lemma_keyed_map_dom(s, k);
        if has_key(t, k) {
            let j = choose|j: int| 0 <= j < t.len() && #[trigger] t[j].key() == k;
            let j2 = if j < i { j } else { j + 1 };
            assert(t[j] == s[j2]);
            assert(s[j2].key() != k0);
        }
        if has_key(s, k) && k != k0 {
            let j = choose|j: int| 0 <= j < s.len() && #[trigger] s[j].key() == k;
            if j < i {
                assert(t[j] == s[j]);
            } else {
                assert(j != i);
                assert(t[j - 1] == s[j]);
            }
        }
    }
    assert forall|k: Seq<char>| #[trigger] keyed_map(t).dom().contains(k) implies keyed_map(t)[k]
        == keyed_map(s).remove(k0)[k] by {
        lemma_keyed_map_dom(t, k);
        let j = choose|j: int| 0 <= j < t.len() && #[trigger] t[j].key() == k;
        let j2 = if j < i { j } else { j + 1 };
        assert(t[j] == s[j2]);
        lemma_keyed_map_at(t, j);
        lemma_keyed_map_at(s, j2);
    }
    assert(keyed_map(t) =~= keyed_map(s).remove(k0));
}

} // verus!
