//! A table from keys to values that keeps its entries in the order in which
//! their keys first came.
use vstd::prelude::*;

use crate::text::str_eq;

verus! {

/// A key: two keys are the same where their views are.
pub trait Key: View + Sized {
    fn same(&self, other: &Self) -> (r: bool)
        ensures
            r == (self@ == other@),
    ;
}

impl Key for String {
    fn same(&self, other: &Self) -> (r: bool) {
        str_eq(self.as_str(), other.as_str())
    }
}

/// The index of the first entry of `s` with the key `k`, and the length of
/// `s` where there is none.
pub open spec fn position<K: View, V>(s: Seq<(K, V)>, k: K::V) -> int
    decreases s.len(),
{
    if s.len() == 0 {
        0
    } else if s[0].0@ == k {
        0
    } else {
        1 + position(s.drop_first(), k)
    }
}

/// `s` with the value `v` for the key `k`: in place of the entry for `k`
/// where there is one, in a new entry at the end where there is none.
pub open spec fn inserted<K: View, V>(s: Seq<(K, V)>, k: K, v: V) -> Seq<(K, V)> {
    if position(s, k@) < s.len() {
        s.update(position(s, k@), (k, v))
    } else {
        s.push((k, v))
    }
}

/// `s` without the entry for the key `k`.
pub open spec fn removed<K: View, V>(s: Seq<(K, V)>, k: K::V) -> Seq<(K, V)> {
    if position(s, k) < s.len() {
        s.remove(position(s, k))
    } else {
        s
    }
}

/// No key occurs twice in `s`.
pub open spec fn distinct_keys<K: View, V>(s: Seq<(K, V)>) -> bool {
    forall|i: int, j: int| 0 <= i < j < s.len() ==> s[i].0@ != s[j].0@
}

/// `position` is the first index with the key, or the length.
pub proof fn lemma_position<K: View, V>(s: Seq<(K, V)>, k: K::V)
    ensures
        0 <= position(s, k) <= s.len(),
        position(s, k) < s.len() ==> s[position(s, k)].0@ == k,
        forall|j: int| 0 <= j < position(s, k) ==> (#[trigger] s[j]).0@ != k,
    decreases s.len(),
{
    if s.len() > 0 && s[0].0@ != k {
        let t = s.drop_first();
        lemma_position(t, k);
        assert forall|j: int| 0 <= j < position(s, k) implies (#[trigger] s[j]).0@ != k by {
            if j > 0 {
                assert(s[j] == t[j - 1]);
            }
        }
    }
}

/// An index that holds the key, with no earlier one that does, is its
/// `position`.
pub proof fn lemma_position_is<K: View, V>(s: Seq<(K, V)>, k: K::V, i: int)
    requires
        0 <= i <= s.len(),
        i < s.len() ==> s[i].0@ == k,
        forall|j: int| 0 <= j < i ==> (#[trigger] s[j]).0@ != k,
    ensures
        position(s, k) == i,
{
    lemma_position(s, k);
    let p = position(s, k);
    if p < i {
        assert(s[p].0@ != k);
    }
}

/// A table from keys to values.
#[derive(Debug)]
pub struct Table<K, V> {
    pub entries: Vec<(K, V)>,
}

impl<K: Key, V> Table<K, V> {
    /// No key occurs twice.
    pub open spec fn wf(&self) -> bool {
        distinct_keys(self.entries@)
    }

    /// Whether the table has an entry for `k`.
    pub open spec fn has(&self, k: K::V) -> bool {
        position(self.entries@, k) < self.entries@.len()
    }

    /// The value for `k`; meaningful where the table has one.
    pub open spec fn value(&self, k: K::V) -> V {
        self.entries@[position(self.entries@, k)].1
    }

    /// An empty table.
    pub fn new() -> (t: Table<K, V>)
        ensures
            t.entries@.len() == 0,
            t.wf(),
    {
        Table { entries: Vec::new() }
    }

    /// The number of entries.
    pub fn len(&self) -> (n: usize)
        ensures
            n == self.entries@.len(),
    {
        self.entries.len()
    }

    /// The index of the entry for `k`, and the number of entries where there
    /// is none.
    pub fn find(&self, k: &K) -> (i: usize)
        ensures
            i == position(self.entries@, k@),
    {
        let mut i: usize = 0;
        while i < self.entries.len()
            invariant
                i <= self.entries.len(),
                forall|j: int| 0 <= j < i ==> (#[trigger] self.entries@[j]).0@ != k@,
            decreases self.entries.len() - i,
        {
            if self.entries[i].0.same(k) {
                proof {
                    lemma_position_is(self.entries@, k@, i as int);
                }
                return i;
            }
            i += 1;
        }
        proof {
            lemma_position_is(self.entries@, k@, i as int);
        }
        i
    }

    /// Whether there is an entry for `k`.
    pub fn contains_key(&self, k: &K) -> (r: bool)
        ensures
            r == self.has(k@),
    {
        self.find(k) < self.entries.len()
    }

    /// The value for `k`.
    pub fn get(&self, k: &K) -> (r: Option<&V>)
        ensures
            r is Some == self.has(k@),
            r is Some ==> *r->0 == self.value(k@),
    {
        let i = self.find(k);
        if i < self.entries.len() {
            Some(&self.entries[i].1)
        } else {
            None
        }
    }

    /// Sets the value for `k`: in place where `k` has an entry, in a new
    /// entry at the end where it has none. Returns the value that was there.
    pub fn insert(&mut self, k: K, v: V) -> (r: Option<V>)
        requires
            old(self).wf(),
        ensures
            final(self).wf(),
            r is Some == old(self).has(k@),
            r is Some ==> r->0 == old(self).value(k@),
            final(self).entries@ == inserted(old(self).entries@, k, v),
    {
        let i = self.find(&k);
        proof {
            lemma_position(self.entries@, k@);
        }
        if i < self.entries.len() {
            let (_, old_v) = self.entries.remove(i);
            self.entries.insert(i, (k, v));
            assert(self.entries@ == old(self).entries@.update(i as int, (k, v)));
            Some(old_v)
        } else {
            self.entries.push((k, v));
            None
        }
    }

    /// Takes the entry for `k` out. Returns its value.
    pub fn remove(&mut self, k: &K) -> (r: Option<V>)
        requires
            old(self).wf(),
        ensures
            final(self).wf(),
            !final(self).has(k@),
            r is Some == old(self).has(k@),
            r is Some ==> r->0 == old(self).value(k@),
            final(self).entries@ == removed(old(self).entries@, k@),
            !old(self).has(k@) ==> *final(self) == *old(self),
    {
        let i = self.find(k);
        proof {
            lemma_position(self.entries@, k@);
        }
        if i < self.entries.len() {
            let (_, old_v) = self.entries.remove(i);
            proof {
                let s = old(self).entries@;
                let t = self.entries@;
                assert forall|j: int| 0 <= j < t.len() implies (#[trigger] t[j]).0@ != k@ by {
                    if j < i {
                        assert(t[j] == s[j]);
                    } else {
                        assert(t[j] == s[j + 1]);
                    }
                }
                lemma_position_is(t, k@, t.len() as int);
                assert forall|a: int, b: int| 0 <= a < b < t.len() implies t[a].0@ != t[b].0@ by {
                    let a2 = if a < i { a } else { a + 1 };
                    let b2 = if b < i { b } else { b + 1 };
                    assert(t[a] == s[a2]);
                    assert(t[b] == s[b2]);
                }
            }
            Some(old_v)
        } else {
            None
        }
    }

    /// Puts `v` in place of the value of the entry at index `i`. Returns the
    /// value that was there.
    pub fn replace_at(&mut self, i: usize, v: V) -> (r: V)
        requires
            old(self).wf(),
            i < old(self).entries@.len(),
        ensures
            final(self).wf(),
            r == old(self).entries@[i as int].1,
            final(self).entries@ == old(self).entries@.update(
                i as int,
                (old(self).entries@[i as int].0, v),
            ),
    {
        let (k, old_v) = self.entries.remove(i);
        self.entries.insert(i, (k, v));
        assert(self.entries@ == old(self).entries@.update(
            i as int,
            (old(self).entries@[i as int].0, v),
        ));
        old_v
    }

    /// Takes every entry out.
    pub fn clear(&mut self)
        ensures
            final(self).entries@.len() == 0,
            final(self).wf(),
    {
        self.entries.clear();
    }
}

/// Putting another value in an entry moves no key.
pub proof fn lemma_update_keeps_positions<K: View, V>(s: Seq<(K, V)>, i: int, v: V, k: K::V)
    requires
        0 <= i < s.len(),
    ensures
        position(s.update(i, (s[i].0, v)), k) == position(s, k),
{
    let t = s.update(i, (s[i].0, v));
    lemma_position(s, k);
    let p = position(s, k);
    assert forall|j: int| 0 <= j < p implies (#[trigger] t[j]).0@ != k by {
        assert(t[j].0@ == s[j].0@);
    }
    if p < s.len() {
        assert(t[p].0@ == s[p].0@);
    }
    lemma_position_is(t, k, p);
}

/// Whether `after` is `before` with the entry for the key `k` set anew: the
/// entry stands where it stood, or at the end if there was none, and all
/// other entries are as they were.
pub open spec fn set_at_key<K: View, V>(before: Seq<(K, V)>, after: Seq<(K, V)>, k: K::V) -> bool {
    let p = position(before, k);
    &&& after.len() == if p < before.len() {
        before.len()
    } else {
        before.len() + 1
    }
    &&& position(after, k) == p
    &&& after[p].0@ == k
    &&& forall|i: int| 0 <= i < before.len() && i != p ==> after[i] == before[i]
}

/// What `inserted` gives is the table with the entry for the key set anew.
pub proof fn lemma_inserted_sets<K: View, V>(s: Seq<(K, V)>, k: K, v: V)
    ensures
        set_at_key(s, inserted(s, k, v), k@),
        inserted(s, k, v)[position(s, k@)] == (k, v),
{
    let t = inserted(s, k, v);
    let p = position(s, k@);
    lemma_position(s, k@);
    assert forall|j: int| 0 <= j < p implies (#[trigger] t[j]).0@ != k@ by {
        assert(t[j] == s[j]);
    }
    lemma_position_is(t, k@, p);
}

/// A key that is put into a table that does not hold it has exactly one
/// entry, and taking it out again gives the table as it was.
pub proof fn lemma_insert_then_remove<K: View, V>(s: Seq<(K, V)>, k: K, v: V)
    requires
        distinct_keys(s),
        !(position(s, k@) < s.len()),
    ensures
        inserted(s, k, v) == s.push((k, v)),
        distinct_keys(inserted(s, k, v)),
        position(inserted(s, k, v), k@) == s.len(),
        forall|i: int| 0 <= i < s.len() ==> (#[trigger] inserted(s, k, v)[i]).0@ != k@,
        removed(inserted(s, k, v), k@) == s,
{
    let t = inserted(s, k, v);
    lemma_position(s, k@);
    assert forall|i: int| 0 <= i < s.len() implies (#[trigger] t[i]).0@ != k@ by {
        assert(t[i] == s[i]);
    }
    lemma_position_is(t, k@, s.len() as int);
    assert(t.remove(s.len() as int) == s);
    assert forall|a: int, b: int| 0 <= a < b < t.len() implies t[a].0@ != t[b].0@ by {
        if b < s.len() {
            assert(t[a] == s[a] && t[b] == s[b]);
        } else {
            assert(t[a] == s[a]);
        }
    }
}

} // verus!
