//! Small maps kept as lists of key and value pairs, each key at most once:
//! the tables a cell agent keeps, keyed by names, UUIDs or port numbers.
use vstd::prelude::*;

use crate::config::PortNo;
use crate::name::{Name, SenderID, TreeID};
use crate::utility::PortNumber;
use crate::uuid_ec::Uuid;

verus! {

/// A key of such a table, compared by the value `key_of` gives.
pub trait MapKey: Sized {
    type K;

    spec fn key_of(&self) -> Self::K;

    fn same_key(&self, other: &Self) -> (b: bool)
        ensures
            b == (self.key_of() == other.key_of()),
    ;
}

impl MapKey for TreeID {
    type K = (Seq<char>, Uuid);

    open spec fn key_of(&self) -> (Seq<char>, Uuid) {
        (self.spec_name(), self.spec_uuid())
    }

    fn same_key(&self, other: &Self) -> (b: bool) {
        self.equals(other)
    }
}

impl MapKey for SenderID {
    type K = (Seq<char>, Uuid);

    open spec fn key_of(&self) -> (Seq<char>, Uuid) {
        (self.spec_name(), self.spec_uuid())
    }

    fn same_key(&self, other: &Self) -> (b: bool) {
        self.equals(other)
    }
}

impl MapKey for String {
    type K = Seq<char>;

    open spec fn key_of(&self) -> Seq<char> {
        self@
    }

    fn same_key(&self, other: &Self) -> (b: bool) {
        *self == *other
    }
}

impl MapKey for Uuid {
    type K = Uuid;

    open spec fn key_of(&self) -> Uuid {
        *self
    }

    fn same_key(&self, other: &Self) -> (b: bool) {
        *self == *other
    }
}

impl MapKey for PortNumber {
    type K = PortNumber;

    open spec fn key_of(&self) -> PortNumber {
        *self
    }

    fn same_key(&self, other: &Self) -> (b: bool) {
        *self == *other
    }
}

impl MapKey for PortNo {
    type K = PortNo;

    open spec fn key_of(&self) -> PortNo {
        *self
    }

    fn same_key(&self, other: &Self) -> (b: bool) {
        *self == *other
    }
}

/// No key occurs twice.
pub open spec fn keys_distinct<K: MapKey, V>(s: Seq<(K, V)>) -> bool {
    forall|i: int, j: int| 0 <= i < j < s.len() ==> (#[trigger] s[i].0.key_of()) != (#[trigger] s[j].0.key_of())
}

/// Whether the key is filed.
pub open spec fn has_key<K: MapKey, V>(s: Seq<(K, V)>, k: K::K) -> bool {
    exists|i: int| 0 <= i < s.len() && (#[trigger] s[i].0.key_of()) == k
}

/// The value filed under the key, if any.
pub open spec fn lookup<K: MapKey, V>(s: Seq<(K, V)>, k: K::K) -> Option<V> {
    if has_key(s, k) {
        Some(s[choose|i: int| 0 <= i < s.len() && (#[trigger] s[i].0.key_of()) == k].1)
    } else {
        None
    }
}

/// With distinct keys, the value at a position is the one filed under its key.
pub proof fn lemma_lookup_at<K: MapKey, V>(s: Seq<(K, V)>, i: int)
    requires
        keys_distinct(s),
        0 <= i < s.len(),
    ensures
        lookup(s, s[i].0.key_of()) == Some(s[i].1),
{
    let k = s[i].0.key_of();
    assert(has_key(s, k));
    let c = choose|c: int| 0 <= c < s.len() && (#[trigger] s[c].0.key_of()) == k;
    if c != i {
        if c < i {
            assert(s[c].0.key_of() != s[i].0.key_of());
        } else {
            assert(s[i].0.key_of() != s[c].0.key_of());
        }
    }
}

/// Replacing the pair at a position by one with the same key keeps the
/// other keys' values.
pub proof fn lemma_lookup_update<K: MapKey, V>(s: Seq<(K, V)>, i: int, key: K, v: V)
    requires
        keys_distinct(s),
        0 <= i < s.len(),
        key.key_of() == s[i].0.key_of(),
    ensures
        keys_distinct(s.update(i, (key, v))),
        forall|k: K::K| #[trigger]
            lookup(s.update(i, (key, v)), k) == if k == s[i].0.key_of() {
                Some(v)
            } else {
                lookup(s, k)
            },
{
    let t = s.update(i, (key, v));
    assert forall|a: int, b: int| 0 <= a < b < t.len() implies (#[trigger] t[a].0.key_of()) != (#[trigger] t[b].0.key_of()) by {
        assert(t[a].0.key_of() == s[a].0.key_of());
        assert(t[b].0.key_of() == s[b].0.key_of());
    }
    assert forall|k: K::K| #[trigger]
        lookup(t, k) == if k == s[i].0.key_of() {
            Some(v)
        } else {
            lookup(s, k)
        } by {
        if k == s[i].0.key_of() {
            lemma_lookup_at(t, i);
        } else {
            if has_key(s, k) {
                let c = choose|c: int| 0 <= c < s.len() && (#[trigger] s[c].0.key_of()) == k;
                lemma_lookup_at(s, c);
                assert(t[c].0.key_of() == k);
                lemma_lookup_at(t, c);
            } else {
                assert(!has_key(t, k)) by {
                    if has_key(t, k) {
                        let c = choose|c: int| 0 <= c < t.len() && (#[trigger] t[c].0.key_of()) == k;
                        assert(s[c].0.key_of() == k);
                    }
                }
            }
        }
    }
}

/// Appending a new key keeps the other keys' values.
pub proof fn lemma_lookup_push<K: MapKey, V>(s: Seq<(K, V)>, key: K, v: V)
    requires
        keys_distinct(s),
        !has_key(s, key.key_of()),
    ensures
        keys_distinct(s.push((key, v))),
        forall|k: K::K| #[trigger]
            lookup(s.push((key, v)), k) == if k == key.key_of() {
                Some(v)
            } else {
                lookup(s, k)
            },
{
    let t = s.push((key, v));
    assert forall|a: int, b: int| 0 <= a < b < t.len() implies (#[trigger] t[a].0.key_of()) != (#[trigger] t[b].0.key_of()) by {
        if b == s.len() {
            assert(t[a].0 == s[a].0);
            if s[a].0.key_of() == key.key_of() {
                assert(has_key(s, key.key_of()));
            }
        } else {
            assert(t[a].0 == s[a].0);
            assert(t[b].0 == s[b].0);
        }
    }
    assert forall|k: K::K| #[trigger]
        lookup(t, k) == if k == key.key_of() {
            Some(v)
        } else {
            lookup(s, k)
        } by {
        if k == key.key_of() {
            lemma_lookup_at(t, s.len() as int);
        } else {
            if has_key(s, k) {
                let c = choose|c: int| 0 <= c < s.len() && (#[trigger] s[c].0.key_of()) == k;
                lemma_lookup_at(s, c);
                assert(t[c].0.key_of() == k);
                lemma_lookup_at(t, c);
            } else {
                assert(!has_key(t, k)) by {
                    if has_key(t, k) {
                        let c = choose|c: int| 0 <= c < t.len() && (#[trigger] t[c].0.key_of()) == k;
                        if c < s.len() {
                            assert(s[c].0.key_of() == k);
                        }
                    }
                }
            }
        }
    }
}

/// Taking the pair at a position out and putting a new one back in its
/// place replaces it.
pub proof fn lemma_remove_insert<A>(s: Seq<A>, i: int, x: A)
    requires
        0 <= i < s.len(),
    ensures
        s.remove(i).insert(i, x) == s.update(i, x),
{
    assert(s.remove(i).insert(i, x) =~= s.update(i, x));
}

/// The position of the key, if it is filed.
pub fn find<K: MapKey, V>(s: &Vec<(K, V)>, k: &K) -> (r: Option<usize>)
    ensures
        r matches Some(i) ==> i < s@.len() && s@[i as int].0.key_of() == k.key_of(),
        r is None ==> !has_key(s@, k.key_of()),
{
    let mut i: usize = 0;
    while i < s.len()
        invariant
            i <= s@.len(),
            forall|j: int| 0 <= j < i ==> (#[trigger] s@[j].0.key_of()) != k.key_of(),
        decreases s@.len() - i,
    {
        if s[i].0.same_key(k) {
            return Some(i);
        }
        i = i + 1;
    }
    None
}

/// Files the value under the key, replacing the value filed there.
pub fn file<K: MapKey, V>(s: &mut Vec<(K, V)>, k: K, v: V)
    requires
        keys_distinct(old(s)@),
    ensures
        keys_distinct(final(s)@),
        forall|q: K::K| #[trigger]
            lookup(final(s)@, q) == if q == k.key_of() {
                Some(v)
            } else {
                lookup(old(s)@, q)
            },
        !has_key(old(s)@, k.key_of()) ==> final(s)@ == old(s)@.push((k, v)),
        has_key(old(s)@, k.key_of()) ==> exists|i: int|
            0 <= i < old(s)@.len() && old(s)@[i].0.key_of() == k.key_of() && final(s)@ == old(s)@.update(i, (k, v)),
{
    match find(s, &k) {
        Some(i) => {
            proof {
                lemma_lookup_update(s@, i as int, k, v);
            }
            s.set(i, (k, v));
        },
        None => {
            proof {
                lemma_lookup_push(s@, k, v);
            }
            s.push((k, v));
        },
    }
}

} // verus!
