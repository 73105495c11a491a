//! A map from text to values that keeps its entries in the order in which
//! their keys first came.

use vstd::prelude::*;

use crate::text::str_eq;

verus! {

/// No key stands twice.
pub open spec fn distinct_keys<V>(t: Seq<(Seq<char>, V)>) -> bool {
    forall|i: int, j: int| 0 <= i < j < t.len() ==> (#[trigger] t[i]).0 != (#[trigger] t[j]).0
}

/// The entry at `i` has the key `k`.
pub open spec fn key_at<V>(t: Seq<(Seq<char>, V)>, k: Seq<char>, i: int) -> bool {
    0 <= i < t.len() && t[i].0 == k
}

/// Some entry has the key `k`.
pub open spec fn has_key<V>(t: Seq<(Seq<char>, V)>, k: Seq<char>) -> bool {
    exists|i: int| #[trigger] key_at(t, k, i)
}

/// Where the key `k` stands.
pub open spec fn position<V>(t: Seq<(Seq<char>, V)>, k: Seq<char>) -> int {
    choose|i: int| #[trigger] key_at(t, k, i)
}

/// The value that stands under `k`.
pub open spec fn lookup<V>(t: Seq<(Seq<char>, V)>, k: Seq<char>) -> Option<V> {
    if has_key(t, k) {
        Some(t[position(t, k)].1)
    } else {
        None
    }
}

/// `t` with `v` under `k`: in the place of the value that was there, or at the
/// end where there was none.
pub open spec fn put<V>(t: Seq<(Seq<char>, V)>, k: Seq<char>, v: V) -> Seq<(Seq<char>, V)> {
    if has_key(t, k) {
        t.update(position(t, k), (k, v))
    } else {
        t.push((k, v))
    }
}

/// What `put` changes: the value under `k`, and nothing else. Keys stay
/// distinct, and stay where they are.
pub proof fn put_changes_one_key<V>(t: Seq<(Seq<char>, V)>, k: Seq<char>, v: V)
    requires
        distinct_keys(t),
    ensures
        distinct_keys(put(t, k, v)),
        lookup(put(t, k, v), k) == Some(v),
        forall|o: Seq<char>|
            o != k ==> #[trigger] lookup(put(t, k, v), o) == lookup(t, o),
        forall|o: Seq<char>| #[trigger] has_key(put(t, k, v), o) <==> (o == k || has_key(t, o)),
        put(t, k, v).len() == if has_key(t, k) {
            t.len()
        } else {
            t.len() + 1
        },
{
    let u = put(t, k, v);
    if has_key(t, k) {
        assert(key_at(t, k, position(t, k)));
        assert(key_at(u, k, position(t, k)));
    } else {
        assert forall|i: int| 0 <= i < t.len() implies (#[trigger] t[i]).0 != k by {
            assert(!key_at(t, k, i));
        }
        assert(key_at(u, k, t.len() as int));
    }
    assert(distinct_keys(u));
    assert(key_at(u, k, position(u, k)));
    assert forall|o: Seq<char>| o != k implies #[trigger] lookup(u, o) == lookup(t, o) && (has_key(
        u,
        o,
    ) <==> has_key(t, o)) by {
        if has_key(t, o) {
            let i = position(t, o);
            assert(key_at(t, o, i));
            assert(key_at(u, o, i));
            assert(key_at(u, o, position(u, o)));
        }
        if has_key(u, o) {
            let i = position(u, o);
            assert(key_at(u, o, i));
            assert(key_at(t, o, i));
        }
    }
    assert forall|o: Seq<char>| #[trigger] has_key(u, o) <==> (o == k || has_key(t, o)) by {
        if o != k {
            assert(lookup(u, o) == lookup(t, o));
        }
    }
}

/// Two places with one key are the same place.
pub proof fn position_is_unique<V>(t: Seq<(Seq<char>, V)>, k: Seq<char>, i: int)
    requires
        distinct_keys(t),
        key_at(t, k, i),
    ensures
        position(t, k) == i,
        lookup(t, k) == Some(t[i].1),
{
    assert(key_at(t, k, position(t, k)));
}

/// The entries of `t` with each value taken by its view.
pub open spec fn viewed<V: View>(t: Seq<(Seq<char>, V)>) -> Seq<(Seq<char>, V::V)> {
    t.map_values(|e: (Seq<char>, V)| (e.0, e.1@))
}

/// Putting and looking up agree with taking values by their views.
pub proof fn viewed_put<V: View>(t: Seq<(Seq<char>, V)>, k: Seq<char>, v: V)
    requires
        distinct_keys(t),
    ensures
        distinct_keys(viewed(t)),
        has_key(viewed(t), k) == has_key(t, k),
        has_key(t, k) ==> position(viewed(t), k) == position(t, k),
        viewed(put(t, k, v)) == put(viewed(t), k, v@),
{
    let w = viewed(t);
    assert(distinct_keys(w)) by {
        assert forall|i: int, j: int| 0 <= i < j < w.len() implies (#[trigger] w[i]).0 != (
        #[trigger] w[j]).0 by {
            assert(t[i].0 != t[j].0);
        }
    }
    if has_key(t, k) {
        let i = position(t, k);
        assert(key_at(t, k, i));
        assert(key_at(w, k, i));
        position_is_unique(w, k, i);
    }
    if has_key(w, k) {
        let i = position(w, k);
        assert(key_at(w, k, i));
        assert(key_at(t, k, i));
    }
    assert(viewed(put(t, k, v)) =~= put(w, k, v@));
}

/// Looking up agrees with taking values by their views.
pub proof fn viewed_get<V: View>(t: Seq<(Seq<char>, V)>, k: Seq<char>)
    requires
        distinct_keys(t),
    ensures
        distinct_keys(viewed(t)),
        has_key(viewed(t), k) == has_key(t, k),
        has_key(t, k) ==> position(viewed(t), k) == position(t, k),
        lookup(viewed(t), k) == match lookup(t, k) {
            Some(v) => Some(v@),
            None => None,
        },
{
    viewed_put(t, k, arbitrary());
    if has_key(t, k) {
        assert(key_at(t, k, position(t, k)));
    }
}

/// A map from text to values of type `V`, in the order of first insertion.
#[derive(Debug)]
pub struct Table<V> {
    entries: Vec<(String, V)>,
}

impl<V> View for Table<V> {
    type V = Seq<(Seq<char>, V)>;

    closed spec fn view(&self) -> Seq<(Seq<char>, V)> {
        self.entries@.map_values(|e: (String, V)| (e.0@, e.1))
    }
}

impl<V> Table<V> {
    /// No key stands twice.
    #[verifier::type_invariant]
    pub closed spec fn keys_are_distinct(self) -> bool {
        distinct_keys(self@)
    }

    /// The empty table.
    pub fn new() -> (t: Self)
        ensures
            t@ == Seq::<(Seq<char>, V)>::empty(),
            distinct_keys(t@),
    {
        let t = Table { entries: Vec::new() };
        assert(t@ =~= Seq::<(Seq<char>, V)>::empty());
        t
    }

    /// How many entries there are.
    pub fn len(&self) -> (n: usize)
        ensures
            n == self@.len(),
            distinct_keys(self@),
    {
        proof {
            use_type_invariant(self);
        }
        self.entries.len()
    }

    /// Whether there is no entry.
    pub fn is_empty(&self) -> (r: bool)
        ensures
            r == (self@.len() == 0),
    {
        self.entries.len() == 0
    }

    /// The key of the entry at `i`.
    pub fn key(&self, i: usize) -> (k: &String)
        requires
            i < self@.len(),
        ensures
            k@ == self@[i as int].0,
    {
        &self.entries[i].0
    }

    /// The value of the entry at `i`.
    pub fn value(&self, i: usize) -> (v: &V)
        requires
            i < self@.len(),
        ensures
            *v == self@[i as int].1,
    {
        &self.entries[i].1
    }

    /// Where the key `k` stands.
    pub fn find(&self, k: &str) -> (r: Option<usize>)
        ensures
            distinct_keys(self@),
            match r {
                Some(i) => key_at(self@, k@, i as int) && position(self@, k@) == i,
                None => !has_key(self@, k@),
            },
    {
        proof {
            use_type_invariant(self);
        }
        let mut i: usize = 0;
        while i < self.entries.len()
            invariant
                i <= self@.len(),
                self@.len() == self.entries@.len(),
                distinct_keys(self@),
                forall|j: int| 0 <= j < i ==> !#[trigger] key_at(self@, k@, j),
            decreases self@.len() - i,
        {
            if str_eq(self.entries[i].0.as_str(), k) {
                proof {
                    assert(key_at(self@, k@, i as int));
                    position_is_unique(self@, k@, i as int);
                }
                return Some(i);
            }
            i = i + 1;
        }
        None
    }

    /// The value that stands under `k`.
    pub fn get(&self, k: &str) -> (r: Option<&V>)
        ensures
            distinct_keys(self@),
            match r {
                Some(v) => lookup(self@, k@) == Some(*v),
                None => lookup(self@, k@) is None,
            },
    {
        match self.find(k) {
            Some(i) => Some(&self.entries[i].1),
            None => None,
        }
    }

    /// Whether some entry has the key `k`.
    pub fn contains_key(&self, k: &str) -> (r: bool)
        ensures
            r == has_key(self@, k@),
    {
        self.find(k).is_some()
    }

    /// Puts `v` under `k`.
    pub fn insert(&mut self, k: String, v: V)
        ensures
            distinct_keys(old(self)@),
            final(self)@ == put(old(self)@, k@, v),
            distinct_keys(final(self)@),
    {
        let ghost t = self@;
        let mut entries: Vec<(String, V)> = Vec::new();
        let found = self.find(k.as_str());
        proof {
            put_changes_one_key(t, k@, v);
        }
        std::mem::swap(&mut entries, &mut self.entries);
        let ghost before = entries@;
        match found {
            Some(i) => {
                entries.set(i, (k, v));
                assert(entries@.map_values(|e: (String, V)| (e.0@, e.1)) =~= put(t, k@, v));
            },
            None => {
                entries.push((k, v));
                assert(entries@.map_values(|e: (String, V)| (e.0@, e.1)) =~= put(t, k@, v));
            },
        }
        self.entries = entries;
    }

    /// Takes the entry at `i` out.
    pub fn take_at(&mut self, i: usize) -> (e: (String, V))
        requires
            i < old(self)@.len(),
        ensures
            distinct_keys(old(self)@),
            e.0@ == old(self)@[i as int].0,
            e.1 == old(self)@[i as int].1,
            final(self)@ == old(self)@.remove(i as int),
            !has_key(final(self)@, e.0@),
    {
        proof {
            use_type_invariant(&*self);
        }
        let ghost t = self@;
        let mut entries: Vec<(String, V)> = Vec::new();
        std::mem::swap(&mut entries, &mut self.entries);
        let e = entries.remove(i);
        proof {
            let u = entries@.map_values(|e: (String, V)| (e.0@, e.1));
            assert(u =~= t.remove(i as int));
            assert forall|a: int, b: int| 0 <= a < b < u.len() implies (#[trigger] u[a]).0 != (
            #[trigger] u[b]).0 by {
                let x = if a < i { a } else { a + 1 };
                let y = if b < i { b } else { b + 1 };
                assert(u[a] == t[x] && u[b] == t[y]);
            }
            if has_key(u, e.0@) {
                let a = position(u, e.0@);
                assert(key_at(u, e.0@, a));
                let x = if a < i { a } else { a + 1 };
                assert(u[a] == t[x]);
                assert(t[x].0 == t[i as int].0);
            }
        }
        self.entries = entries;
        e
    }

    /// Puts an entry with a new key at the place `i`.
    pub fn put_at(&mut self, i: usize, k: String, v: V)
        requires
            i <= old(self)@.len(),
            !has_key(old(self)@, k@),
        ensures
            final(self)@ == old(self)@.insert(i as int, (k@, v)),
    {
        proof {
            use_type_invariant(&*self);
        }
        let ghost t = self@;
        let ghost name = k@;
        let mut entries: Vec<(String, V)> = Vec::new();
        std::mem::swap(&mut entries, &mut self.entries);
        entries.insert(i, (k, v));
        proof {
            let u = entries@.map_values(|e: (String, V)| (e.0@, e.1));
            assert(u =~= t.insert(i as int, (name, v)));
            assert forall|a: int| 0 <= a < t.len() implies (#[trigger] t[a]).0 != name by {
                assert(!key_at(t, name, a));
            }
            assert forall|a: int, b: int| 0 <= a < b < u.len() implies (#[trigger] u[a]).0 != (
            #[trigger] u[b]).0 by {
                if a < i {
                    assert(u[a] == t[a]);
                } else if a > i {
                    assert(u[a] == t[a - 1]);
                }
                if b < i {
                    assert(u[b] == t[b]);
                } else if b > i {
                    assert(u[b] == t[b - 1]);
                }
            }
        }
        self.entries = entries;
    }

    /// The entries, in order.
    pub fn into_entries(self) -> (v: Vec<(String, V)>)
        ensures
            v@.map_values(|e: (String, V)| (e.0@, e.1)) == self@,
            v@.len() == self@.len(),
            forall|i: int|
                0 <= i < v@.len() ==> (#[trigger] v@[i]).0@ == self@[i].0 && v@[i].1 == self@[i].1,
    {
        self.entries
    }
}

impl<V: Clone> Clone for Table<V> {
    fn clone(&self) -> (t: Self)
        ensures
            t@.len() == self@.len(),
            forall|i: int|
                0 <= i < t@.len() ==> (#[trigger] t@[i]).0 == self@[i].0 && cloned::<V>(
                    self@[i].1,
                    t@[i].1,
                ),
    {
        proof {
            use_type_invariant(self);
        }
        let mut entries: Vec<(String, V)> = Vec::new();
        let mut i: usize = 0;
        while i < self.entries.len()
            invariant
                i <= self.entries@.len(),
                self.entries@.len() == self@.len(),
                entries@.len() == i,
                forall|j: int|
                    0 <= j < i ==> (#[trigger] entries@[j]).0@ == self@[j].0 && cloned::<V>(
                        self@[j].1,
                        entries@[j].1,
                    ),
            decreases self.entries@.len() - i,
        {
            let k = self.entries[i].0.clone();
            let v = self.entries[i].1.clone();
            entries.push((k, v));
            i = i + 1;
        }
        proof {
            let u = entries@.map_values(|e: (String, V)| (e.0@, e.1));
            assert forall|a: int, b: int| 0 <= a < b < u.len() implies (#[trigger] u[a]).0 != (
            #[trigger] u[b]).0 by {
                assert(u[a].0 == self@[a].0 && u[b].0 == self@[b].0);
            }
        }
        Table { entries }
    }
}

/// A value that is put under a key leaves every key in its place; a new key
/// comes last.
pub proof fn keys_keep_their_places<V>(t: Seq<(Seq<char>, V)>, k: Seq<char>, v: V)
    ensures
        forall|i: int|
            0 <= i < t.len() ==> (#[trigger] put(t, k, v)[i]).0 == t[i].0 && (t[i].0 != k
                ==> put(t, k, v)[i] == t[i]),
        put(t, k, v).len() >= t.len(),
        (forall|i: int| 0 <= i < t.len() ==> (#[trigger] t[i]).0 != k) ==> put(t, k, v) == t.push(
            (k, v),
        ),
        (exists|i: int| 0 <= i < t.len() && (#[trigger] t[i]).0 == k) ==> put(t, k, v).len()
            == t.len(),
{
    if has_key(t, k) {
        assert(key_at(t, k, position(t, k)));
    }
    if exists|i: int| 0 <= i < t.len() && (#[trigger] t[i]).0 == k {
        let i = choose|i: int| 0 <= i < t.len() && (#[trigger] t[i]).0 == k;
        assert(key_at(t, k, i));
    }
}

/// Looking up a key gives the value that stands beside it, and nothing where no
/// entry has the key.
pub proof fn values_stand_beside_their_keys<V>(t: Seq<(Seq<char>, V)>, k: Seq<char>, i: int)
    requires
        distinct_keys(t),
    ensures
        0 <= i < t.len() ==> lookup(t, t[i].0) == Some(t[i].1),
        (forall|j: int| 0 <= j < t.len() ==> (#[trigger] t[j]).0 != k) <==> lookup(t, k) is None,
        has_key(t, k) <==> lookup(t, k) is Some,
{
    if 0 <= i < t.len() {
        assert(key_at(t, t[i].0, i));
        position_is_unique(t, t[i].0, i);
    }
    if has_key(t, k) {
        assert(key_at(t, k, position(t, k)));
    } else {
        assert forall|j: int| 0 <= j < t.len() implies (#[trigger] t[j]).0 != k by {
            assert(!key_at(t, k, j));
        }
    }
}

} // verus!
