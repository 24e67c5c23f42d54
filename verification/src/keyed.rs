//! Tables of values kept by text keys, as sequences of pairs in which no
//! key occurs twice, and what looking a key up gives after each change.
use vstd::prelude::*;

verus! {

/// The index of the first pair whose key is `key`.
pub open spec fn key_index<T>(s: Seq<(Seq<char>, T)>, key: Seq<char>) -> Option<int>
    decreases s.len(),
{
    if s.len() == 0 {
        None
    } else if s[0].0 == key {
        Some(0)
    } else {
        match key_index(s.drop_first(), key) {
            Some(i) => Some(i + 1),
            None => None,
        }
    }
}

/// The value kept for `key`.
pub open spec fn value_of<T>(s: Seq<(Seq<char>, T)>, key: Seq<char>) -> Option<T> {
    match key_index(s, key) {
        Some(i) => Some(s[i].1),
        None => None,
    }
}

/// No key occurs twice.
pub open spec fn keys_distinct<T>(s: Seq<(Seq<char>, T)>) -> bool {
    forall|i: int, j: int|
        0 <= i < s.len() && 0 <= j < s.len() && i != j ==> #[trigger] s[i].0 != #[trigger] s[j].0
}

/// The first pair with `key` is at the index found, and none before it.
pub proof fn lemma_key_index<T>(s: Seq<(Seq<char>, T)>, key: Seq<char>)
    ensures
        match key_index(s, key) {
            Some(i) => 0 <= i < s.len() && s[i].0 == key && forall|j: int|
                0 <= j < i ==> #[trigger] s[j].0 != key,
            None => forall|j: int| 0 <= j < s.len() ==> #[trigger] s[j].0 != key,
        },
    decreases s.len(),
{
    if s.len() > 0 && s[0].0 != key {
        lemma_key_index(s.drop_first(), key);
        let rest = s.drop_first();
        assert forall|j: int| 0 < j < s.len() implies #[trigger] s[j].0 == rest[j - 1].0 by {}
    }
}

/// A pair with `key` that no earlier pair shares is the one found.
pub proof fn lemma_key_index_at<T>(s: Seq<(Seq<char>, T)>, key: Seq<char>, i: int)
    requires
        0 <= i < s.len(),
        s[i].0 == key,
        forall|j: int| 0 <= j < i ==> #[trigger] s[j].0 != key,
    ensures
        key_index(s, key) == Some(i),
{
    lemma_key_index(s, key);
    match key_index(s, key) {
        Some(k) => {
            if k < i {
                assert(s[k].0 != key);
            } else if k > i {
                assert(s[i].0 != key);
            }
        },
        None => {
            assert(s[i].0 != key);
        },
    }
}

/// Where keys are distinct, the pair at any index is what its key finds.
pub proof fn lemma_distinct_lookup<T>(s: Seq<(Seq<char>, T)>, i: int)
    requires
        keys_distinct(s),
        0 <= i < s.len(),
    ensures
        key_index(s, s[i].0) == Some(i),
        value_of(s, s[i].0) == Some(s[i].1),
{
    assert forall|j: int| 0 <= j < i implies #[trigger] s[j].0 != s[i].0 by {}
    lemma_key_index_at(s, s[i].0, i);
}

/// Replacing the value of an existing key: that key now finds the new
/// value, every other key what it found before, and keys stay distinct.
pub proof fn lemma_replace_value<T>(s: Seq<(Seq<char>, T)>, i: int, v: T)
    requires
        keys_distinct(s),
        0 <= i < s.len(),
    ensures
        keys_distinct(s.update(i, (s[i].0, v))),
        value_of(s.update(i, (s[i].0, v)), s[i].0) == Some(v),
        forall|k: Seq<char>|
            k != s[i].0 ==> #[trigger] value_of(s.update(i, (s[i].0, v)), k) == value_of(s, k),
{
    let key = s[i].0;
    let t = s.update(i, (key, v));
    assert forall|a: int, b: int|
        0 <= a < t.len() && 0 <= b < t.len() && a != b implies #[trigger] t[a].0 != #[trigger] t[b].0 by {
        assert(t[a].0 == s[a].0 && t[b].0 == s[b].0);
    }
    lemma_distinct_lookup(t, i);
    assert forall|k: Seq<char>| k != key implies #[trigger] value_of(t, k) == value_of(s, k) by {
        lemma_key_index(s, k);
        lemma_key_index(t, k);
        match key_index(s, k) {
            Some(j) => {
                assert(t[j].0 == s[j].0);
                lemma_distinct_lookup(t, j);
            },
            None => {
                if let Some(j) = key_index(t, k) {
                    assert(t[j].0 == s[j].0);
                }
            },
        }
    }
}

/// Adding a pair for a key not yet kept: it finds the new value, every
/// other key what it found before, and keys stay distinct.
pub proof fn lemma_push_value<T>(s: Seq<(Seq<char>, T)>, key: Seq<char>, v: T)
    requires
        keys_distinct(s),
        key_index(s, key) is None,
    ensures
        keys_distinct(s.push((key, v))),
        value_of(s.push((key, v)), key) == Some(v),
        forall|k: Seq<char>| k != key ==> #[trigger] value_of(s.push((key, v)), k) == value_of(s, k),
{
    let t = s.push((key, v));
    lemma_key_index(s, key);
    assert forall|a: int, b: int|
        0 <= a < t.len() && 0 <= b < t.len() && a != b implies #[trigger] t[a].0 != #[trigger] t[b].0 by {
        if a < s.len() && b < s.len() {
            assert(t[a] == s[a] && t[b] == s[b]);
        } else if a < s.len() {
            assert(t[a] == s[a]);
        } else {
            assert(t[b] == s[b]);
        }
    }
    lemma_distinct_lookup(t, s.len() as int);
    assert forall|k: Seq<char>| k != key implies #[trigger] value_of(t, k) == value_of(s, k) by {
        lemma_key_index(s, k);
        lemma_key_index(t, k);
        match key_index(s, k) {
            Some(j) => {
                assert(t[j] == s[j]);
                lemma_distinct_lookup(t, j);
            },
            None => {
                if let Some(j) = key_index(t, k) {
                    if j < s.len() {
                        assert(t[j] == s[j]);
                    }
                }
            },
        }
    }
}

/// Removing the pair at an index: its key finds nothing, every other key
/// what it found before, and keys stay distinct.
pub proof fn lemma_remove_value<T>(s: Seq<(Seq<char>, T)>, i: int)
    requires
        keys_distinct(s),
        0 <= i < s.len(),
    ensures
        keys_distinct(s.remove(i)),
        value_of(s.remove(i), s[i].0) is None,
        forall|k: Seq<char>| k != s[i].0 ==> #[trigger] value_of(s.remove(i), k) == value_of(s, k),
{
    let key = s[i].0;
    let t = s.remove(i);
    assert forall|a: int| 0 <= a < t.len() implies #[trigger] t[a] == s[if a < i {
        a
    } else {
        a + 1
    }] by {}
    assert forall|a: int, b: int|
        0 <= a < t.len() && 0 <= b < t.len() && a != b implies #[trigger] t[a].0 != #[trigger] t[b].0 by {
        let sa = if a < i {
            a
        } else {
            a + 1
        };
        let sb = if b < i {
            b
        } else {
            b + 1
        };
        assert(t[a] == s[sa] && t[b] == s[sb]);
    }
    lemma_key_index(t, key);
    if let Some(j) = key_index(t, key) {
        let sj = if j < i {
            j
        } else {
            j + 1
        };
        assert(t[j] == s[sj]);
    }
    assert forall|k: Seq<char>| k != key implies #[trigger] value_of(t, k) == value_of(s, k) by {
        lemma_key_index(s, k);
        lemma_key_index(t, k);
        match key_index(s, k) {
            Some(j) => {
                let tj = if j < i {
                    j
                } else {
                    j - 1
                };
                assert(t[tj] == s[j]);
                lemma_distinct_lookup(t, tj);
            },
            None => {
                if let Some(j) = key_index(t, k) {
                    let sj = if j < i {
                        j
                    } else {
                        j + 1
                    };
                    assert(t[j] == s[sj]);
                }
            },
        }
    }
}

} // verus!
