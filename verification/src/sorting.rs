//! Stable ordering of values by a string key, in the byte order that `str`
//! comparison uses.

use vstd::prelude::*;
use vstd::seq_lib::*;
use vstd::string::*;
use vstd::utf8::*;

use crate::text::{bytes_le, bytes_lt, lemma_bytes_le_transitive, str_lt};

verus! {

/// Values ordered by a string key.
pub trait SortKey {
    /// The key's characters.
    spec fn key_spec(&self) -> Seq<char>;

    /// The key.
    fn sort_key(&self) -> (r: &str)
        ensures
            r@ == self.key_spec(),
    ;
}

/// `a`'s key sorts at or before `b`'s.
pub open spec fn key_le<T: SortKey>(a: T, b: T) -> bool {
    bytes_le(encode_utf8(a.key_spec()), encode_utf8(b.key_spec()))
}

/// Sorted by key, first to last.
pub open spec fn sorted_by_key<T: SortKey>(s: Seq<T>) -> bool {
    forall|i: int, j: int| 0 <= i < j < s.len() ==> key_le(#[trigger] s[i], #[trigger] s[j])
}

/// The strict byte order is asymmetric.
pub proof fn lemma_bytes_lt_asymmetric(a: Seq<u8>, b: Seq<u8>)
    requires
        bytes_lt(a, b),
    ensures
        !bytes_lt(b, a),
    decreases a.len(),
{
    if a.len() > 0 && b.len() > 0 && a[0] == b[0] {
        lemma_bytes_lt_asymmetric(a.skip(1), b.skip(1));
    }
}

proof fn lemma_insert_multiset<T>(r: Seq<T>, p: int, x: T)
    requires
        0 <= p <= r.len(),
    ensures
        r.insert(p, x).to_multiset() =~= r.to_multiset().insert(x),
{
    broadcast use vstd::multiset::group_multiset_axioms;

    let a = r.take(p);
    let b = r.skip(p);
    assert(r.insert(p, x) =~= a.push(x) + b);
    assert(r =~= a + b);
    lemma_multiset_commutative(a.push(x), b);
    lemma_multiset_commutative(a, b);
    to_multiset_build(a, x);
}

/// The values of `s` whose key is `k`, in their order in `s`.
pub open spec fn with_key<T: SortKey>(s: Seq<T>, k: Seq<char>) -> Seq<T>
    decreases s.len(),
{
    if s.len() == 0 {
        Seq::empty()
    } else {
        let rest = with_key(s.drop_last(), k);
        if s.last().key_spec() == k {
            rest.push(s.last())
        } else {
            rest
        }
    }
}

proof fn lemma_with_key_add<T: SortKey>(a: Seq<T>, b: Seq<T>, k: Seq<char>)
    ensures
        with_key(a + b, k) == with_key(a, k) + with_key(b, k),
    decreases b.len(),
{
    if b.len() == 0 {
        assert(a + b =~= a);
        assert(with_key(a, k) + with_key(b, k) =~= with_key(a, k));
    } else {
        lemma_with_key_add(a, b.drop_last(), k);
        assert((a + b).drop_last() =~= a + b.drop_last());
        assert((a + b).last() == b.last());
        if b.last().key_spec() == k {
            assert(with_key(a, k) + with_key(b.drop_last(), k).push(b.last()) =~= (with_key(a, k)
                + with_key(b.drop_last(), k)).push(b.last()));
        }
    }
}

proof fn lemma_with_key_none<T: SortKey>(s: Seq<T>, k: Seq<char>)
    requires
        forall|m: int| 0 <= m < s.len() ==> (#[trigger] s[m]).key_spec() != k,
    ensures
        with_key(s, k) == Seq::<T>::empty(),
    decreases s.len(),
{
    if s.len() > 0 {
        assert forall|m: int| 0 <= m < s.drop_last().len() implies (#[trigger] s.drop_last()[m]).key_spec()
            != k by {
            assert(s.drop_last()[m] == s[m]);
        }
        lemma_with_key_none(s.drop_last(), k);
        assert(s.last() == s[s.len() - 1]);
    }
}

proof fn lemma_with_key_one<T: SortKey>(x: T, k: Seq<char>)
    ensures
        with_key(seq![x], k) == (if x.key_spec() == k {
            seq![x]
        } else {
            Seq::<T>::empty()
        }),
{
    let e = Seq::<T>::empty();
    assert(seq![x].drop_last() =~= e);
    assert(seq![x].last() == x);
    assert(with_key(e, k) == e);
    assert(e.push(x) =~= seq![x]);
    assert(with_key(seq![x], k) == (if x.key_spec() == k {
        with_key(e, k).push(x)
    } else {
        with_key(e, k)
    }));
}

/// Sorts by key, keeping equal keys in their original order
/// (`slice::sort_by` on the key's string order).
pub fn sort_by_key<T: SortKey>(v: Vec<T>) -> (r: Vec<T>)
    ensures
        sorted_by_key(r@),
        r@.to_multiset() =~= v@.to_multiset(),
        forall|k: Seq<char>| #[trigger] with_key(r@, k) == with_key(v@, k),
{
    let ghost orig = v@;
    let mut v = v;
    let mut r: Vec<T> = Vec::new();
    let mut i: usize = 0;
    let n = v.len();
    proof {
        assert(orig.take(0) =~= Seq::<T>::empty());
        assert(orig.skip(0) =~= orig);
    }
    while i < n
        invariant
            n == orig.len(),
            i <= n,
            v@ == orig.skip(i as int),
            sorted_by_key(r@),
            r@.to_multiset() =~= orig.take(i as int).to_multiset(),
            forall|k: Seq<char>| #[trigger] with_key(r@, k) == with_key(orig.take(i as int), k),
        decreases n - i,
    {
        let x = v.remove(0);
        proof {
            assert(x == orig[i as int]);
            assert(v@ =~= orig.skip(i + 1));
        }
        // Position after every element whose key is not above x's.
        let mut p: usize = 0;
        while p < r.len() && !str_lt(x.sort_key(), r[p].sort_key())
            invariant
                p <= r@.len(),
                forall|k: int| 0 <= k < p ==> key_le(#[trigger] r@[k], x),
            decreases r@.len() - p,
        {
            proof {
                let kx = encode_utf8(x.key_spec());
                let kr = encode_utf8(r@[p as int].key_spec());
                assert(!bytes_lt(kx, kr));
                assert(key_le(r@[p as int], x));
            }
            p = p + 1;
        }
        let ghost before = r@;
        proof {
            if p < before.len() {
                let kx = encode_utf8(x.key_spec());
                let kp = encode_utf8(before[p as int].key_spec());
                assert(bytes_lt(kx, kp));
                lemma_bytes_lt_asymmetric(kx, kp);
                assert(key_le(x, before[p as int]));
            }
        }
        r.insert(p, x);
        proof {
            assert(r@ == before.insert(p as int, x));
            assert forall|a: int, b: int| 0 <= a < b < r@.len() implies key_le(
                #[trigger] r@[a],
                #[trigger] r@[b],
            ) by {
                let ka = encode_utf8(r@[a].key_spec());
                let kb = encode_utf8(r@[b].key_spec());
                if b < p {
                    assert(r@[a] == before[a] && r@[b] == before[b]);
                } else if b == p {
                    assert(r@[a] == before[a]);
                } else if a < p {
                    assert(r@[a] == before[a] && r@[b] == before[b - 1]);
                    let kx = encode_utf8(x.key_spec());
                    let kp = encode_utf8(before[p as int].key_spec());
                    assert(key_le(before[a], x));
                    assert(key_le(x, before[p as int]));
                    if b - 1 > p {
                        assert(key_le(before[p as int], before[b - 1]));
                        lemma_bytes_le_transitive(kx, kp, kb);
                    }
                    lemma_bytes_le_transitive(ka, kx, kb);
                } else if a == p {
                    assert(r@[b] == before[b - 1]);
                    let kp = encode_utf8(before[p as int].key_spec());
                    if b - 1 > p {
                        assert(key_le(before[p as int], before[b - 1]));
                        lemma_bytes_le_transitive(ka, kp, kb);
                    }
                } else {
                    assert(r@[a] == before[a - 1] && r@[b] == before[b - 1]);
                }
            }
            lemma_insert_multiset(before, p as int, x);
            assert forall|k: Seq<char>| #[trigger] with_key(r@, k) == with_key(
                orig.take(i + 1),
                k,
            ) by {
                lemma_insert_keeps_key_order(before, p as int, x, k);
                assert(orig.take(i + 1) =~= orig.take(i as int) + seq![x]);
                lemma_with_key_add(orig.take(i as int), seq![x], k);
                lemma_with_key_one(x, k);
                if x.key_spec() != k {
                    assert(with_key(orig.take(i as int), k) + Seq::<T>::empty() =~= with_key(
                        orig.take(i as int),
                        k,
                    ));
                }
            }
            assert(orig.take(i + 1) =~= orig.take(i as int).push(x));
            to_multiset_build(orig.take(i as int), x);
        }
        i = i + 1;
    }
    proof {
        assert(orig.take(n as int) =~= orig);
    }
    r
}

/// Inserting `x` after every value whose key is not above its own, and
/// before a value whose key is above it, keeps each key's values in order
/// with `x` last among those of its key.
proof fn lemma_insert_keeps_key_order<T: SortKey>(before: Seq<T>, p: int, x: T, k: Seq<char>)
    requires
        0 <= p <= before.len(),
        sorted_by_key(before),
        p < before.len() ==> bytes_lt(
            encode_utf8(x.key_spec()),
            encode_utf8(before[p].key_spec()),
        ),
    ensures
        with_key(before.insert(p, x), k) == with_key(before, k) + with_key(seq![x], k),
{
    let a = before.take(p);
    let b = before.skip(p);
    assert(before =~= a + b);
    assert(before.insert(p, x) =~= a + seq![x] + b);
    lemma_with_key_add(a, b, k);
    lemma_with_key_add(a + seq![x], b, k);
    lemma_with_key_add(a, seq![x], k);
    lemma_with_key_one(x, k);
    if x.key_spec() == k {
        assert forall|m: int| 0 <= m < b.len() implies (#[trigger] b[m]).key_spec() != k by {
            assert(b[m] == before[p + m]);
            let kx = encode_utf8(x.key_spec());
            let kp = encode_utf8(before[p].key_spec());
            let km = encode_utf8(before[p + m].key_spec());
            if m > 0 {
                assert(key_le(before[p], before[p + m]));
            }
            if before[p + m].key_spec() == k {
                if m > 0 {
                    assert(!bytes_lt(km, kp));
                    assert(km == kx);
                    lemma_bytes_lt_asymmetric(kx, kp);
                } else {
                    lemma_bytes_lt_asymmetric(kx, kp);
                }
            }
        }
        lemma_with_key_none(b, k);
        assert(with_key(a, k) + with_key(seq![x], k) + Seq::<T>::empty() =~= with_key(a, k)
            + with_key(seq![x], k));
        assert(with_key(before, k) =~= with_key(a, k) + Seq::<T>::empty());
    } else {
        assert(with_key(a, k) + Seq::<T>::empty() =~= with_key(a, k));
        assert(with_key(before, k) + Seq::<T>::empty() =~= with_key(before, k));
    }
}

} // verus!
