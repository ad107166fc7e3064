//! Orders, and a stable sort for values that have one.
use vstd::prelude::*;
use vstd::utf8::encode_utf8;

verus! {

/// `a` comes before `b` when bytes are compared one by one and a missing
/// byte comes first.
pub open spec fn lex_lt(a: Seq<u8>, b: Seq<u8>) -> bool
    decreases a.len(),
{
    if b.len() == 0 {
        false
    } else if a.len() == 0 {
        true
    } else if a[0] != b[0] {
        a[0] < b[0]
    } else {
        lex_lt(a.drop_first(), b.drop_first())
    }
}

/// The text `a` comes before the text `b`: by their bytes in UTF-8.
pub open spec fn text_lt(a: Seq<char>, b: Seq<char>) -> bool {
    lex_lt(encode_utf8(a), encode_utf8(b))
}

pub proof fn lemma_lex_asymmetric(a: Seq<u8>, b: Seq<u8>)
    ensures
        !(lex_lt(a, b) && lex_lt(b, a)),
        !lex_lt(a, a),
    decreases a.len(),
{
    if a.len() > 0 && b.len() > 0 && a[0] == b[0] {
        lemma_lex_asymmetric(a.drop_first(), b.drop_first());
    }
    if a.len() > 0 {
        lemma_lex_asymmetric(a.drop_first(), a.drop_first());
    }
}

pub proof fn lemma_lex_transitive(a: Seq<u8>, b: Seq<u8>, c: Seq<u8>)
    requires
        lex_lt(a, b),
        lex_lt(b, c),
    ensures
        lex_lt(a, c),
    decreases a.len(),
{
    if a.len() > 0 && b.len() > 0 && c.len() > 0 && a[0] == b[0] && b[0] == c[0] {
        lemma_lex_transitive(a.drop_first(), b.drop_first(), c.drop_first());
    }
}

pub proof fn lemma_lex_total(a: Seq<u8>, b: Seq<u8>)
    ensures
        lex_lt(a, b) || lex_lt(b, a) || a == b,
    decreases a.len(),
{
    if a.len() > 0 && b.len() > 0 && a[0] == b[0] {
        lemma_lex_total(a.drop_first(), b.drop_first());
        if a.drop_first() == b.drop_first() {
            assert(a == seq![a[0]] + a.drop_first());
            assert(b == seq![b[0]] + b.drop_first());
        }
    } else if a.len() == 0 && b.len() == 0 {
        assert(a == b);
    }
}

/// Two texts of which neither comes before the other are the same text.
pub proof fn lemma_text_total(a: Seq<char>, b: Seq<char>)
    ensures
        text_lt(a, b) || text_lt(b, a) || a == b,
{
    lemma_lex_total(encode_utf8(a), encode_utf8(b));
    if encode_utf8(a) == encode_utf8(b) {
        vstd::utf8::encode_utf8_decode_utf8(a);
        vstd::utf8::encode_utf8_decode_utf8(b);
    }
}

/// Whether the bytes `a` come before the bytes `b`.
pub fn bytes_before(a: &[u8], b: &[u8]) -> (r: bool)
    ensures
        r == lex_lt(a@, b@),
{
    let mut i: usize = 0;
    assert(a@.skip(0) == a@);
    assert(b@.skip(0) == b@);
    loop
        invariant
            i <= a.len(),
            i <= b.len(),
            lex_lt(a@, b@) == lex_lt(a@.skip(i as int), b@.skip(i as int)),
        decreases a.len() - i,
    {
        if i >= b.len() {
            return false;
        }
        if i >= a.len() {
            return true;
        }
        if a[i] != b[i] {
            return a[i] < b[i];
        }
        assert(a@.skip(i as int).drop_first() == a@.skip(i + 1));
        assert(b@.skip(i as int).drop_first() == b@.skip(i + 1));
        i += 1;
    }
}

/// Whether the text `a` comes before the text `b`.
pub fn str_before(a: &str, b: &str) -> (r: bool)
    ensures
        r == text_lt(a@, b@),
{
    bytes_before(a.as_bytes(), b.as_bytes())
}

/// Values with an order by which they can be sorted. Values of which neither
/// comes before the other count as equal in rank.
pub trait Ranked: Sized {
    /// `self` comes before `other`.
    spec fn before(&self, other: &Self) -> bool;

    /// Nothing comes before itself, and ranks are transitive.
    proof fn lemma_order(a: &Self, b: &Self, c: &Self)
        ensures
            !a.before(a),
            a.before(b) && b.before(c) ==> a.before(c),
            !a.before(b) && !b.before(c) ==> !a.before(c),
    ;

    fn precedes(&self, other: &Self) -> (r: bool)
        ensures
            r == self.before(other),
    ;
}

/// No value in `s` comes before one that stands earlier.
pub open spec fn sorted<T: Ranked>(s: Seq<T>) -> bool {
    forall|i: int, j: int| #![trigger s[i], s[j]] 0 <= i < j < s.len() ==> !s[j].before(&s[i])
}

/// The index of the first value of `s` that `x` does not come behind, and
/// the length of `s` where there is none.
pub open spec fn slot<T: Ranked>(s: Seq<T>, x: T) -> int
    decreases s.len(),
{
    if s.len() == 0 || !s[0].before(&x) {
        0
    } else {
        1 + slot(s.drop_first(), x)
    }
}

/// `s` in order, with values of equal rank in the order in which they stand
/// in `s`.
pub open spec fn stable_sorted<T: Ranked>(s: Seq<T>) -> Seq<T>
    decreases s.len(),
{
    if s.len() == 0 {
        Seq::empty()
    } else {
        let rest = stable_sorted(s.drop_first());
        rest.insert(slot(rest, s[0]), s[0])
    }
}

pub proof fn lemma_slot<T: Ranked>(s: Seq<T>, x: T)
    ensures
        0 <= slot(s, x) <= s.len(),
        forall|j: int| 0 <= j < slot(s, x) ==> (#[trigger] s[j]).before(&x),
        slot(s, x) < s.len() ==> !s[slot(s, x)].before(&x),
    decreases s.len(),
{
    if !(s.len() == 0 || !s[0].before(&x)) {
        let t = s.drop_first();
        lemma_slot(t, x);
        assert forall|j: int| 0 <= j < slot(s, x) implies (#[trigger] s[j]).before(&x) by {
            if j > 0 {
                assert(s[j] == t[j - 1]);
            }
        }
    }
}

/// What `stable_sorted` gives is in order and holds the values of `s`, each
/// as often as `s` does.
pub proof fn lemma_stable_sorted<T: Ranked>(s: Seq<T>)
    ensures
        sorted(stable_sorted(s)),
        stable_sorted(s).len() == s.len(),
        stable_sorted(s).to_multiset() == s.to_multiset(),
    decreases s.len(),
{
    broadcast use vstd::seq_lib::group_to_multiset_ensures;

    if s.len() > 0 {
        let x = s[0];
        let rest = stable_sorted(s.drop_first());
        lemma_stable_sorted(s.drop_first());
        lemma_slot(rest, x);
        let p = slot(rest, x);
        let r = rest.insert(p, x);
        assert forall|i: int, j: int| #![trigger r[i], r[j]] 0 <= i < j < r.len() implies !r[j].before(
            &r[i],
        ) by {
            if j < p {
                assert(r[i] == rest[i] && r[j] == rest[j]);
            } else if j == p {
                assert(r[i] == rest[i]);
                T::lemma_order(&x, &rest[i], &x);
            } else if i == p {
                assert(r[j] == rest[j - 1]);
                if j - 1 > p {
                    assert(!rest[j - 1].before(&rest[p]));
                }
                T::lemma_order(&rest[j - 1], &rest[p], &x);
            } else if i < p {
                assert(r[i] == rest[i] && r[j] == rest[j - 1]);
            } else {
                assert(r[i] == rest[i - 1] && r[j] == rest[j - 1]);
            }
        }
        assert(s == seq![x] + s.drop_first());
        vstd::seq_lib::lemma_multiset_commutative(seq![x], s.drop_first());
        assert(seq![x] == Seq::<T>::empty().push(x));
        assert(r.to_multiset() == rest.to_multiset().insert(x));
        assert(seq![x].to_multiset() == vstd::multiset::Multiset::<T>::empty().insert(x));
    }
}

/// Sorts `v`; values of equal rank keep their order.
pub fn stable_sort<T: Ranked>(v: Vec<T>) -> (r: Vec<T>)
    ensures
        r@ == stable_sorted(v@),
{
    let mut v = v;
    let mut r: Vec<T> = Vec::new();
    let ghost all = v@;
    assert(all.skip(all.len() as int) == Seq::<T>::empty());
    while v.len() > 0
        invariant
            v@ == all.take(v.len() as int),
            v.len() <= all.len(),
            r@ == stable_sorted(all.skip(v.len() as int)),
        decreases v.len(),
    {
        let x = v.pop().unwrap();
        let mut j: usize = 0;
        assert(r@.skip(0) == r@);
        while j < r.len() && r[j].precedes(&x)
            invariant
                j <= r.len(),
                slot(r@, x) == j + slot(r@.skip(j as int), x),
            decreases r.len() - j,
        {
            assert(r@.skip(j as int).drop_first() == r@.skip(j + 1));
            j += 1;
        }
        proof {
            assert(all.skip(v.len() as int).drop_first() == all.skip(v.len() + 1));
            assert(all.skip(v.len() as int)[0] == x);
        }
        r.insert(j, x);
    }
    assert(all.skip(0) == all);
    r
}

} // verus!
